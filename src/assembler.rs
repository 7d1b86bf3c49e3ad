//! The two-pass assembler: assembly text to instructions, with labels
//! resolved in the second pass and every error of the file reported at once.
//!
//! Pass one tokenizes each line, binds labels to the index of the
//! instruction that follows them, and emits instructions whose address
//! operands may still name labels. Pass two resolves those names, and
//! collects what cannot be resolved.
use vstd::prelude::*;
use crate::instr::{
    AddrOp, AddressOrSymbol, ByteOp, DrawSpriteInstr, Instr, InstrView, NoArgOp, PairOp, RegOp,
    Target, WordInstr,
};
use vstd::string::*;
use crate::system::{lemma_run_concat, run, Machine};
use crate::text::{
    chars_eq, chars_of, dec_text, push_chars, push_dec, push_repeat, push_str, repeat_char,
    same_chars, string_of, sub_chars, upper_of, uppercase,
};

verus! {

/// A token of an assembly line: its text and the column it starts at.
pub struct Tok {
    pub text: Seq<char>,
    pub pos: int,
}

/// A diagnostic message with the span it points at; a length of 0 spans
/// to the end of the line.
pub struct ErrView {
    pub msg: Seq<char>,
    pub pos: int,
    pub len: int,
}

/// A diagnostic of the whole file: the line number (from 0), the line as
/// written, and the message with its span.
pub struct Diag {
    pub line_no: int,
    pub line: Seq<char>,
    pub err: ErrView,
}

/// What one line of assembly amounts to.
pub enum LineOutcome {
    /// Instructions to emit, none for a blank or comment line.
    Code(Seq<InstrView>),
    /// A label definition: the name, and the column and length of the
    /// token that defines it.
    Label(Seq<char>, int, int),
    /// An error in the line.
    Fail(ErrView),
}

/// How an integer numeral fails to parse.
#[derive(Clone, Copy, Debug, PartialEq, Eq, Structural)]
pub enum IntErr {
    Empty,
    InvalidDigit,
    PosOverflow,
}

/// The description of an [`IntErr`], as Rust's integer parsing gives it.
pub open spec fn int_err_text(e: IntErr) -> Seq<char> {
    match e {
        IntErr::Empty => "cannot parse integer from empty string"@,
        IntErr::InvalidDigit => "invalid digit found in string"@,
        IntErr::PosOverflow => "number too large to fit in target type"@,
    }
}

/// Space, tab and comma separate tokens.
pub open spec fn is_sep(c: char) -> bool {
    c == ' ' || c == '\t' || c == ','
}

/// The tokens of `l` from index `i`, where `start` is the index at which
/// the token being read began, or -1 between tokens.
pub open spec fn scan(l: Seq<char>, i: int, start: int) -> Seq<Tok>
    decreases l.len() - i,
{
    if i >= l.len() {
        if start >= 0 {
            seq![Tok { text: l.subrange(start, l.len() as int), pos: start }]
        } else {
            Seq::empty()
        }
    } else if is_sep(l[i]) {
        (if start >= 0 {
            seq![Tok { text: l.subrange(start, i), pos: start }]
        } else {
            Seq::empty()
        }) + scan(l, i + 1, -1)
    } else {
        scan(
            l,
            i + 1,
            if start >= 0 {
                start
            } else {
                i
            },
        )
    }
}

/// The maximal runs of non-separators in `l`, with their columns.
pub open spec fn tokens(l: Seq<char>) -> Seq<Tok> {
    scan(l, 0, -1)
}

/// The index at which the first `//` of `l` at or after `i` starts, or the
/// length of `l`.
pub open spec fn comment_from(l: Seq<char>, i: int) -> int
    decreases l.len() - i,
{
    if i + 1 >= l.len() {
        l.len() as int
    } else if l[i] == '/' && l[i + 1] == '/' {
        i
    } else {
        comment_from(l, i + 1)
    }
}

/// `l` without its `//` comment.
pub open spec fn strip_comment(l: Seq<char>) -> Seq<char> {
    l.take(comment_from(l, 0))
}

/// The lines of `t` from index `start`: split at `\n`, with a `\r` before
/// the `\n` dropped, and no empty line after a final `\n`.
pub open spec fn lines_from(t: Seq<char>, start: int, i: int) -> Seq<Seq<char>>
    decreases t.len() - i,
{
    if i >= t.len() {
        if start < t.len() {
            seq![t.subrange(start, t.len() as int)]
        } else {
            Seq::empty()
        }
    } else if t[i] == '\n' {
        let line = if i > start && t[i - 1] == '\r' {
            t.subrange(start, i - 1)
        } else {
            t.subrange(start, i)
        };
        seq![line] + lines_from(t, i + 1, i + 1)
    } else {
        lines_from(t, start, i + 1)
    }
}

/// The lines of `t`, as `str::lines` splits them.
pub open spec fn lines_of(t: Seq<char>) -> Seq<Seq<char>> {
    lines_from(t, 0, 0)
}

/// The value of digit `c` in `radix` (10 or 16, letters in either case).
pub open spec fn digit_val(c: char, radix: int) -> Option<int> {
    if '0' <= c && c <= '9' {
        Some(c as u32 - '0' as u32)
    } else if radix == 16 && 'a' <= c && c <= 'f' {
        Some(c as u32 - 'a' as u32 + 10)
    } else if radix == 16 && 'A' <= c && c <= 'F' {
        Some(c as u32 - 'A' as u32 + 10)
    } else {
        None
    }
}

/// The digits of `s` from `i` on, read left to right after the value
/// `acc`; the first digit that is invalid, or that takes the value past
/// `max`, fails.
pub open spec fn digits_from(s: Seq<char>, i: int, acc: int, radix: int, max: int) -> Result<
    int,
    IntErr,
>
    decreases s.len() - i,
{
    if i >= s.len() {
        Ok(acc)
    } else {
        match digit_val(s[i], radix) {
            None => Err(IntErr::InvalidDigit),
            Some(d) => if acc * radix + d > max {
                Err(IntErr::PosOverflow)
            } else {
                digits_from(s, i + 1, acc * radix + d, radix, max)
            },
        }
    }
}

/// An unsigned numeral in `radix`, with an optional leading `+`, of value
/// at most `max`.
pub open spec fn parse_uint(s: Seq<char>, radix: int, max: int) -> Result<int, IntErr> {
    if s.len() == 0 {
        Err(IntErr::Empty)
    } else if s[0] == '+' {
        if s.len() == 1 {
            Err(IntErr::InvalidDigit)
        } else {
            digits_from(s, 1, 0, radix, max)
        }
    } else {
        digits_from(s, 0, 0, radix, max)
    }
}

/// A failure pointing at the whole of token `t`.
pub open spec fn tok_err(t: Tok, msg: Seq<char>) -> ErrView {
    ErrView { msg, pos: t.pos, len: t.text.len() as int }
}

/// A register operand: `V` or `v`, then an index in decimal or, failing
/// that, hexadecimal, at most 15.
pub open spec fn vx_spec(t: Tok) -> Result<u8, ErrView> {
    if t.text[0] != 'V' && t.text[0] != 'v' {
        Err(tok_err(t, "VX arg does not begin with \"V\""@))
    } else {
        let num = t.text.skip(1);
        let idx = match parse_uint(num, 10, 0xFF) {
            Ok(v) => Some(v),
            Err(_) => match parse_uint(num, 16, 0xFF) {
                Ok(v) => Some(v),
                Err(_) => None,
            },
        };
        match idx {
            None => Err(tok_err(t, "Invalid V register: \""@ + t.text + "\""@)),
            Some(v) => if v > 0xF {
                Err(tok_err(t, "V register index cannot be > 0xF"@))
            } else {
                Ok(v as u8)
            },
        }
    }
}

/// A hexadecimal operand: `0x`, then at most four hexadecimal digits'
/// worth of value.
pub open spec fn hex_spec(t: Tok) -> Result<u16, ErrView> {
    if t.text.len() < 2 {
        Err(tok_err(t, "Arg too short to be a hex number"@))
    } else if t.text[0] != '0' || t.text[1] != 'x' {
        Err(tok_err(t, "Hex number must start with \"0x\""@))
    } else {
        match parse_uint(t.text.skip(2), 16, 0xFFFF) {
            Err(e) => Err(tok_err(t, "Invalid hex number: "@ + int_err_text(e))),
            Ok(v) => Ok(v as u16),
        }
    }
}

/// A byte operand, in hexadecimal or decimal.
pub open spec fn xx_spec(t: Tok) -> Result<u8, ErrView> {
    let v = match hex_spec(t) {
        Ok(v) => Some(v as int),
        Err(_) => match parse_uint(t.text, 10, 0xFFFF) {
            Ok(v) => Some(v),
            Err(_) => None,
        },
    };
    match v {
        None => Err(tok_err(t, "Invalid byte argument"@)),
        Some(v) => if v > 0xFF {
            Err(tok_err(t, "Byte argument larger than 0xFF"@))
        } else {
            Ok(v as u8)
        },
    }
}

/// A 12-bit address operand, in hexadecimal.
pub open spec fn nnn_spec(t: Tok) -> Result<u16, ErrView> {
    match hex_spec(t) {
        Err(e) => Err(e),
        Ok(v) => if v > 0xFFF {
            Err(tok_err(t, "Address argument larger than 0xFFF"@))
        } else {
            Ok(v)
        },
    }
}

/// An address operand, or else the name of a label.
pub open spec fn target_spec(t: Tok) -> Target {
    match nnn_spec(t) {
        Ok(v) => Target::Address(v),
        Err(_) => Target::Symbol(t.text),
    }
}

/// A sprite height operand, in decimal, below 16.
pub open spec fn n_spec(t: Tok) -> Result<u8, ErrView> {
    match parse_uint(t.text, 10, 0xFF) {
        Err(e) => Err(tok_err(t, int_err_text(e))),
        Ok(v) => if v > 15 {
            Err(tok_err(t, "Nibble must be < 16"@))
        } else {
            Ok(v as u8)
        },
    }
}

/// The instructions that load a 16-bit address above 0xFFF into `I`:
/// `LD I, 0xFFF`, then the rest added through `VE` (which is clobbered) in
/// steps of 0xFF and a final partial step.
pub open spec fn ext_load_spec(addr: u16) -> Seq<InstrView> {
    let rest = addr - 0xFFF;
    let adds = rest / 0xFF;
    let rem = rest % 0xFF;
    seq![InstrView::Addr(AddrOp::LdI, Target::Address(0xFFF))] + (if adds != 0 {
        seq![InstrView::Byte(ByteOp::Ld, 14, 0xFF)] + Seq::new(
            adds as nat,
            |k: int| InstrView::Reg(RegOp::AddI, 14),
        )
    } else {
        Seq::empty()
    }) + (if rem != 0 {
        seq![InstrView::Byte(ByteOp::Ld, 14, rem as u8), InstrView::Reg(RegOp::AddI, 14)]
    } else {
        Seq::empty()
    })
}

/// `JP addr` or `JP V0, addr`.
pub open spec fn jp_spec(args: Seq<Tok>) -> LineOutcome {
    if args.len() == 2 {
        match vx_spec(args[0]) {
            Err(e) => LineOutcome::Fail(e),
            Ok(v) => if v != 0 {
                LineOutcome::Fail(tok_err(args[0], "Jump plus instruction can only use V0!"@))
            } else {
                LineOutcome::Code(seq![InstrView::Addr(AddrOp::JpV0, target_spec(args[1]))])
            },
        }
    } else {
        LineOutcome::Code(seq![InstrView::Addr(AddrOp::Jp, target_spec(args[0]))])
    }
}

/// `SE` or `SNE`, against a register or a byte.
pub open spec fn skip_spec(args: Seq<Tok>, bop: ByteOp, pop: PairOp, name: Seq<char>) -> LineOutcome {
    match vx_spec(args[0]) {
        Err(e) => LineOutcome::Fail(e),
        Ok(x) => match vx_spec(args[1]) {
            Ok(y) => LineOutcome::Code(seq![InstrView::Pair(pop, x, y)]),
            Err(_) => match xx_spec(args[1]) {
                Ok(kk) => LineOutcome::Code(seq![InstrView::Byte(bop, x, kk)]),
                Err(_) => LineOutcome::Fail(
                    tok_err(args[1], "Invalid argument 2 for "@ + name + " instruction"@),
                ),
            },
        },
    }
}

/// `ADD Vx, Vy`, `ADD Vx, kk` or `ADD I, Vx`.
pub open spec fn add_spec(args: Seq<Tok>) -> LineOutcome {
    match vx_spec(args[0]) {
        Ok(x) => match vx_spec(args[1]) {
            Ok(y) => LineOutcome::Code(seq![InstrView::Pair(PairOp::Add, x, y)]),
            Err(_) => match xx_spec(args[1]) {
                Ok(kk) => LineOutcome::Code(seq![InstrView::Byte(ByteOp::Add, x, kk)]),
                Err(_) => LineOutcome::Fail(
                    ErrView {
                        msg: "Invalid arguments for ADD instruction"@,
                        pos: args[1].pos,
                        len: 0,
                    },
                ),
            },
        },
        Err(_) => if args[0].text == "I"@ {
            match vx_spec(args[1]) {
                Err(e) => LineOutcome::Fail(e),
                Ok(x) => LineOutcome::Code(seq![InstrView::Reg(RegOp::AddI, x)]),
            }
        } else {
            LineOutcome::Fail(
                ErrView { msg: "Invalid args for ADD instruction"@, pos: args[0].pos, len: 0 },
            )
        },
    }
}

/// `LD Vx, ...`: a byte, a register, `DT`, `K` or `[I]`.
pub open spec fn ld_reg_spec(x: u8, args: Seq<Tok>) -> LineOutcome {
    match xx_spec(args[1]) {
        Ok(kk) => LineOutcome::Code(seq![InstrView::Byte(ByteOp::Ld, x, kk)]),
        Err(_) => match vx_spec(args[1]) {
            Ok(y) => LineOutcome::Code(seq![InstrView::Pair(PairOp::Ld, x, y)]),
            Err(_) => if args[1].text == "DT"@ {
                LineOutcome::Code(seq![InstrView::Reg(RegOp::GetDelay, x)])
            } else if args[1].text == "K"@ {
                LineOutcome::Code(seq![InstrView::Reg(RegOp::WaitKey, x)])
            } else if args[1].text == "[I]"@ {
                LineOutcome::Code(seq![InstrView::Reg(RegOp::Load, x)])
            } else {
                LineOutcome::Fail(
                    ErrView { msg: "Invalid args to LD instruction"@, pos: args[0].pos, len: 0 },
                )
            },
        },
    }
}

/// `LD I, ...`: a 12-bit address, a 16-bit one (several instructions), or
/// a label.
pub open spec fn ld_i_spec(args: Seq<Tok>) -> LineOutcome {
    match hex_spec(args[1]) {
        Ok(a) => if a <= 0xFFF {
            LineOutcome::Code(seq![InstrView::Addr(AddrOp::LdI, Target::Address(a))])
        } else {
            LineOutcome::Code(ext_load_spec(a))
        },
        Err(_) => LineOutcome::Code(seq![InstrView::Addr(AddrOp::LdI, target_spec(args[1]))]),
    }
}

/// An instruction on one register, the second operand.
pub open spec fn reg_second_spec(op: RegOp, args: Seq<Tok>) -> LineOutcome {
    match vx_spec(args[1]) {
        Err(e) => LineOutcome::Fail(e),
        Ok(x) => LineOutcome::Code(seq![InstrView::Reg(op, x)]),
    }
}

/// The forms of `LD`.
pub open spec fn ld_spec(args: Seq<Tok>) -> LineOutcome {
    match vx_spec(args[0]) {
        Ok(x) => ld_reg_spec(x, args),
        Err(_) => if args[0].text == "I"@ {
            ld_i_spec(args)
        } else if args[0].text == "DT"@ {
            reg_second_spec(RegOp::SetDelay, args)
        } else if args[0].text == "ST"@ {
            reg_second_spec(RegOp::SetSound, args)
        } else if args[0].text == "F"@ {
            reg_second_spec(RegOp::Digit, args)
        } else if args[0].text == "B"@ {
            reg_second_spec(RegOp::Bcd, args)
        } else if args[0].text == "[I]"@ {
            reg_second_spec(RegOp::Store, args)
        } else {
            LineOutcome::Fail(
                ErrView { msg: "Invalid args to LD instruction"@, pos: args[0].pos, len: 0 },
            )
        },
    }
}

/// `RND Vx, kk`.
pub open spec fn rnd_spec(args: Seq<Tok>) -> LineOutcome {
    match vx_spec(args[0]) {
        Err(e) => LineOutcome::Fail(e),
        Ok(x) => match xx_spec(args[1]) {
            Err(e) => LineOutcome::Fail(e),
            Ok(kk) => LineOutcome::Code(seq![InstrView::Byte(ByteOp::Rnd, x, kk)]),
        },
    }
}

/// `DRW Vx, Vy, n`.
pub open spec fn drw_spec(args: Seq<Tok>) -> LineOutcome {
    match vx_spec(args[0]) {
        Err(e) => LineOutcome::Fail(e),
        Ok(x) => match vx_spec(args[1]) {
            Err(e) => LineOutcome::Fail(e),
            Ok(y) => match n_spec(args[2]) {
                Err(e) => LineOutcome::Fail(e),
                Ok(n) => LineOutcome::Code(seq![InstrView::Draw(x, y, n)]),
            },
        },
    }
}

/// An instruction on two registers.
pub open spec fn pair_spec(op: PairOp, args: Seq<Tok>) -> LineOutcome {
    match vx_spec(args[0]) {
        Err(e) => LineOutcome::Fail(e),
        Ok(x) => match vx_spec(args[1]) {
            Err(e) => LineOutcome::Fail(e),
            Ok(y) => LineOutcome::Code(seq![InstrView::Pair(op, x, y)]),
        },
    }
}

/// A shift of the register of the first operand.
pub open spec fn shift_spec(op: PairOp, args: Seq<Tok>) -> LineOutcome {
    match vx_spec(args[0]) {
        Err(e) => LineOutcome::Fail(e),
        Ok(x) => LineOutcome::Code(seq![InstrView::Pair(op, x, 0)]),
    }
}

/// A key test on the register of the first operand.
pub open spec fn key_spec(op: RegOp, args: Seq<Tok>) -> LineOutcome {
    match vx_spec(args[0]) {
        Err(e) => LineOutcome::Fail(e),
        Ok(x) => LineOutcome::Code(seq![InstrView::Reg(op, x)]),
    }
}

/// `out` when the mnemonic `m` has `k` operands, else the count error.
pub open spec fn arity(m: Tok, args: Seq<Tok>, k: nat, out: LineOutcome) -> LineOutcome {
    if args.len() != k {
        LineOutcome::Fail(
            tok_err(
                m,
                "Expected "@ + dec_text(k) + " args for "@ + m.text + ", got "@ + dec_text(
                    args.len(),
                ),
            ),
        )
    } else {
        out
    }
}

/// What the mnemonic `m` (upper case `u`) with operands `args` amounts to.
pub open spec fn instr_spec(m: Tok, u: Seq<char>, args: Seq<Tok>) -> LineOutcome {
    if u == "JP"@ {
        if args.len() == 0 || args.len() > 2 {
            LineOutcome::Fail(
                ErrView {
                    msg: "Expected 1 or 2 args for JP instruction, got "@ + dec_text(args.len()),
                    pos: m.pos,
                    len: 0,
                },
            )
        } else {
            jp_spec(args)
        }
    } else if u == "CLS"@ {
        arity(m, args, 0, LineOutcome::Code(seq![InstrView::Plain(NoArgOp::Cls)]))
    } else if u == "RET"@ {
        arity(m, args, 0, LineOutcome::Code(seq![InstrView::Plain(NoArgOp::Ret)]))
    } else if u == "BRK"@ {
        arity(
            m,
            args,
            0,
            LineOutcome::Code(seq![InstrView::Addr(AddrOp::Sys, Target::Address(0xFFF))]),
        )
    } else if u == ".WORD"@ {
        arity(
            m,
            args,
            1,
            match hex_spec(args[0]) {
                Err(e) => LineOutcome::Fail(e),
                Ok(w) => LineOutcome::Code(seq![InstrView::Word(w)]),
            },
        )
    } else if u == "SYS"@ {
        arity(
            m,
            args,
            1,
            LineOutcome::Code(seq![InstrView::Addr(AddrOp::Sys, target_spec(args[0]))]),
        )
    } else if u == "CALL"@ {
        arity(
            m,
            args,
            1,
            LineOutcome::Code(seq![InstrView::Addr(AddrOp::Call, target_spec(args[0]))]),
        )
    } else if u == "SHR"@ {
        arity(m, args, 1, shift_spec(PairOp::Shr, args))
    } else if u == "SHL"@ {
        arity(m, args, 1, shift_spec(PairOp::Shl, args))
    } else if u == "SKP"@ {
        arity(m, args, 1, key_spec(RegOp::Skp, args))
    } else if u == "SKNP"@ {
        arity(m, args, 1, key_spec(RegOp::Sknp, args))
    } else if u == "RND"@ {
        arity(m, args, 2, rnd_spec(args))
    } else if u == "SE"@ {
        arity(m, args, 2, skip_spec(args, ByteOp::Se, PairOp::Se, "SE"@))
    } else if u == "SNE"@ {
        arity(m, args, 2, skip_spec(args, ByteOp::Sne, PairOp::Sne, "SNE"@))
    } else if u == "ADD"@ {
        arity(m, args, 2, add_spec(args))
    } else if u == "LD"@ {
        arity(m, args, 2, ld_spec(args))
    } else if u == "OR"@ {
        arity(m, args, 2, pair_spec(PairOp::Or, args))
    } else if u == "XOR"@ {
        arity(m, args, 2, pair_spec(PairOp::Xor, args))
    } else if u == "AND"@ {
        arity(m, args, 2, pair_spec(PairOp::And, args))
    } else if u == "SUB"@ {
        arity(m, args, 2, pair_spec(PairOp::Sub, args))
    } else if u == "SUBN"@ {
        arity(m, args, 2, pair_spec(PairOp::Subn, args))
    } else if u == "DRW"@ {
        arity(m, args, 3, drw_spec(args))
    } else {
        LineOutcome::Fail(tok_err(m, "Can't get number of args for mnemonic: "@ + m.text))
    }
}

/// What a line of assembly amounts to: nothing for a blank or comment
/// line, a label for a lone token ending in `:`, else an instruction.
pub open spec fn line_spec(line: Seq<char>) -> LineOutcome {
    let toks = tokens(strip_comment(line));
    if toks.len() == 0 {
        LineOutcome::Code(Seq::empty())
    } else {
        let m = toks[0];
        let args = toks.skip(1);
        if args.len() == 0 && m.text.last() == ':' {
            LineOutcome::Label(m.text.drop_last(), m.pos, m.text.len() as int)
        } else {
            instr_spec(m, upper_of(m.text), args)
        }
    }
}


/// A token of an assembly line: its text, its text in upper case, and the
/// column (in characters) where it starts.
#[derive(Clone, Debug, PartialEq, Eq)]
pub struct AsmArg {
    pub s: String,
    pub upper: String,
    pub pos: usize,
}

impl View for AsmArg {
    type V = Tok;

    open spec fn view(&self) -> Tok {
        Tok { text: self.s@, pos: self.pos as int }
    }
}

/// A failure in one line: the message, the column it points at and the
/// length of the span (0: to the end of the line).
#[derive(Clone, Debug, PartialEq, Eq)]
pub struct ErrInfo {
    pub msg: String,
    pub pos: usize,
    pub len: usize,
}

impl View for ErrInfo {
    type V = ErrView;

    open spec fn view(&self) -> ErrView {
        ErrView { msg: self.msg@, pos: self.pos as int, len: self.len as int }
    }
}

/// The tokens of a sequence of arguments.
pub open spec fn toks(args: Seq<AsmArg>) -> Seq<Tok> {
    args.map_values(|a: AsmArg| a@)
}

/// The value of a result whose error is an [`ErrInfo`].
pub open spec fn res<T>(r: Result<T, ErrInfo>) -> Result<T, ErrView> {
    match r {
        Ok(v) => Ok(v),
        Err(e) => Err(e@),
    }
}

/// Tokens as the tokenizer makes them: not empty, with their upper-case
/// text.
pub open spec fn well_formed(args: Seq<AsmArg>) -> bool {
    forall|k: int|
        0 <= k < args.len() ==> (#[trigger] args[k]).s@.len() > 0 && args[k].upper@
            == upper_of(args[k].s@)
}

impl AsmArg {
    /// The token `s` at column `pos`.
    pub fn new(s: String, pos: usize) -> (r: AsmArg)
        ensures
            r.s == s,
            r.upper@ == upper_of(s@),
            r.pos == pos,
    {
        let upper = uppercase(s.as_str());
        AsmArg { upper, s, pos }
    }

    /// Whether the token is exactly `other` (case counts).
    pub fn str_cmp(&self, other: &str) -> (r: bool)
        ensures
            r == (self.s@ == other@),
    {
        chars_eq(&chars_of(self.s.as_str()), other)
    }

    /// The length of the token, in characters.
    pub fn len(&self) -> (r: usize)
        ensures
            r == self.s@.len(),
    {
        self.s.as_str().unicode_len()
    }
}

impl ErrInfo {
    pub fn new(msg: String, pos: usize, len: usize) -> (r: ErrInfo)
        ensures
            r.msg == msg,
            r.pos == pos,
            r.len == len,
    {
        ErrInfo { msg, pos, len }
    }
}

fn lit(s: &str) -> (r: String)
    ensures
        r@ == s@,
{
    String::from_str(s)
}

/// A failure that points at the whole of `arg`.
fn arg_err(arg: &AsmArg, msg: String) -> (r: ErrInfo)
    ensures
        r@ == tok_err(arg@, msg@),
{
    ErrInfo::new(msg, arg.pos, arg.len())
}

/// Splits a comment-free line into its tokens: the maximal runs of
/// characters other than space, tab and comma, each with its column.
pub fn split_asm_line(line: &str) -> (r: Vec<AsmArg>)
    ensures
        toks(r@) == tokens(line@),
        well_formed(r@),
{
    let l = chars_of(line);
    tokenize(&l)
}

fn token_of(l: &Vec<char>, start: usize, end: usize) -> (r: AsmArg)
    requires
        start < end <= l.len(),
    ensures
        r@ == (Tok { text: l@.subrange(start as int, end as int), pos: start as int }),
        r.s@.len() > 0,
        r.upper@ == upper_of(r.s@),
{
    AsmArg::new(string_of(&sub_chars(l, start, end)), start)
}

fn tokenize(l: &Vec<char>) -> (r: Vec<AsmArg>)
    ensures
        toks(r@) == tokens(l@),
        well_formed(r@),
{
    let mut parts: Vec<AsmArg> = Vec::new();
    let mut start: usize = 0;
    let mut in_tok = false;
    let mut i: usize = 0;
    while i < l.len()
        invariant
            i <= l.len(),
            in_tok ==> start < i,
            toks(parts@) + scan(
                l@,
                i as int,
                if in_tok {
                    start as int
                } else {
                    -1
                },
            ) == tokens(l@),
            well_formed(parts@),
        decreases l.len() - i,
    {
        let c = l[i];
        let ghost before = parts@;
        if c == ' ' || c == '\t' || c == ',' {
            if in_tok {
                let a = token_of(l, start, i);
                parts.push(a);
                in_tok = false;
                assert(toks(parts@) =~= toks(before) + seq![a@]);
            } else {
                assert(seq![] + scan(l@, i + 1, -1) =~= scan(l@, i + 1, -1));
            }
        } else if !in_tok {
            start = i;
            in_tok = true;
        }
        i = i + 1;
    }
    if in_tok {
        let ghost before = parts@;
        let a = token_of(l, start, l.len());
        parts.push(a);
        assert(toks(parts@) =~= toks(before) + seq![a@]);
    } else {
        assert(toks(parts@) + Seq::<Tok>::empty() =~= toks(parts@));
    }
    parts
}

fn strip_comment_chars(l: &Vec<char>) -> (r: Vec<char>)
    ensures
        r@ == strip_comment(l@),
{
    let mut i: usize = 0;
    while l.len() > 0 && i < l.len() - 1
        invariant
            i <= l.len(),
            comment_from(l@, 0) == comment_from(l@, i as int),
        decreases l.len() - i,
    {
        if l[i] == '/' && l[i + 1] == '/' {
            return sub_chars(l, 0, i);
        }
        i = i + 1;
    }
    sub_chars(l, 0, l.len())
}

fn split_lines(t: &Vec<char>) -> (r: Vec<Vec<char>>)
    ensures
        r@.map_values(|v: Vec<char>| v@) == lines_of(t@),
{
    let mut lines: Vec<Vec<char>> = Vec::new();
    let mut start: usize = 0;
    let mut i: usize = 0;
    while i < t.len()
        invariant
            start <= i <= t.len(),
            lines@.map_values(|v: Vec<char>| v@) + lines_from(t@, start as int, i as int)
                == lines_of(t@),
        decreases t.len() - i,
    {
        if t[i] == '\n' {
            let end = if i > start && t[i - 1] == '\r' {
                i - 1
            } else {
                i
            };
            let ghost before = lines@;
            let line = sub_chars(t, start, end);
            lines.push(line);
            assert(lines@.map_values(|v: Vec<char>| v@) =~= before.map_values(|v: Vec<char>| v@)
                + seq![line@]);
            start = i + 1;
        }
        i = i + 1;
    }
    if start < t.len() {
        let ghost before = lines@;
        let line = sub_chars(t, start, t.len());
        lines.push(line);
        assert(lines@.map_values(|v: Vec<char>| v@) =~= before.map_values(|v: Vec<char>| v@)
            + seq![line@]);
    } else {
        assert(lines@.map_values(|v: Vec<char>| v@) + Seq::<Seq<char>>::empty() =~= lines@.map_values(
            |v: Vec<char>| v@,
        ));
    }
    lines
}

fn digit_value(c: char, radix: u32) -> (r: Option<u32>)
    requires
        radix == 10 || radix == 16,
    ensures
        match digit_val(c, radix as int) {
            Some(d) => r == Some(d as u32) && d < radix,
            None => r is None,
        },
        radix == 10 || radix == 16 ==> (r is Some ==> r->0 < radix),
{
    if '0' <= c && c <= '9' {
        Some((c as u32) - ('0' as u32))
    } else if radix == 16 && 'a' <= c && c <= 'f' {
        Some((c as u32) - ('a' as u32) + 10)
    } else if radix == 16 && 'A' <= c && c <= 'F' {
        Some((c as u32) - ('A' as u32) + 10)
    } else {
        None
    }
}

/// Parses the characters of `s` after `skip` as an unsigned numeral in
/// `radix`, as Rust's integer parsing does for a type whose largest value
/// is `max`.
fn parse_uint_chars(s: &Vec<char>, skip: usize, radix: u32, max: u32) -> (r: Result<u32, IntErr>)
    requires
        skip <= s.len(),
        radix == 10 || radix == 16,
        max <= 0xFFFF,
    ensures
        match parse_uint(s@.skip(skip as int), radix as int, max as int) {
            Ok(v) => r == Ok::<u32, IntErr>(v as u32) && 0 <= v <= max,
            Err(e) => r == Err::<u32, IntErr>(e),
        },
{
    let ghost t = s@.skip(skip as int);
    if skip == s.len() {
        return Err(IntErr::Empty);
    }
    let mut i: usize = skip;
    if s[skip] == '+' {
        if skip + 1 == s.len() {
            return Err(IntErr::InvalidDigit);
        }
        i = skip + 1;
    }
    let mut acc: u32 = 0;
    while i < s.len()
        invariant
            skip <= i <= s.len(),
            radix == 10 || radix == 16,
            max <= 0xFFFF,
            acc <= max,
            t == s@.skip(skip as int),
            parse_uint(t, radix as int, max as int) == digits_from(
                t,
                i - skip,
                acc as int,
                radix as int,
                max as int,
            ),
        decreases s.len() - i,
    {
        match digit_value(s[i], radix) {
            None => {
                return Err(IntErr::InvalidDigit);
            },
            Some(d) => {
                assert(acc * radix <= 0xFFFF * 16) by (nonlinear_arith)
                    requires
                        acc <= 0xFFFF,
                        radix <= 16,
                ;
                let next = acc * radix + d;
                if next > max {
                    return Err(IntErr::PosOverflow);
                }
                acc = next;
            },
        }
        i = i + 1;
    }
    Ok(acc)
}

fn int_err_str(e: IntErr) -> (r: &'static str)
    ensures
        r@ == int_err_text(e),
{
    match e {
        IntErr::Empty => "cannot parse integer from empty string",
        IntErr::InvalidDigit => "invalid digit found in string",
        IntErr::PosOverflow => "number too large to fit in target type",
    }
}

/// A register operand: `V` or `v` and an index in decimal or else
/// hexadecimal, at most 15.
pub fn parse_vx(arg: &AsmArg) -> (r: Result<u8, ErrInfo>)
    requires
        arg.s@.len() > 0,
    ensures
        res(r) == vx_spec(arg@),
        r is Ok ==> r->Ok_0 < 16,
{
    let t = chars_of(arg.s.as_str());
    if t[0] != 'V' && t[0] != 'v' {
        return Err(arg_err(arg, lit("VX arg does not begin with \"V\"")));
    }
    let idx = match parse_uint_chars(&t, 1, 10, 0xFF) {
        Ok(v) => Some(v),
        Err(_) => match parse_uint_chars(&t, 1, 16, 0xFF) {
            Ok(v) => Some(v),
            Err(_) => None,
        },
    };
    match idx {
        None => {
            let mut m: Vec<char> = Vec::new();
            push_str(&mut m, "Invalid V register: \"");
            push_chars(&mut m, &t);
            push_str(&mut m, "\"");
            assert(m@ =~= "Invalid V register: \""@ + t@ + "\""@);
            Err(arg_err(arg, string_of(&m)))
        },
        Some(v) => {
            if v > 0xF {
                Err(arg_err(arg, lit("V register index cannot be > 0xF")))
            } else {
                Ok(v as u8)
            }
        },
    }
}

/// A hexadecimal operand: `0x` and a 16-bit value.
pub fn parse_hex(arg: &AsmArg) -> (r: Result<u16, ErrInfo>)
    ensures
        res(r) == hex_spec(arg@),
{
    let t = chars_of(arg.s.as_str());
    if t.len() < 2 {
        return Err(arg_err(arg, lit("Arg too short to be a hex number")));
    }
    if t[0] != '0' || t[1] != 'x' {
        return Err(arg_err(arg, lit("Hex number must start with \"0x\"")));
    }
    match parse_uint_chars(&t, 2, 16, 0xFFFF) {
        Ok(v) => Ok(v as u16),
        Err(e) => {
            let mut m: Vec<char> = Vec::new();
            push_str(&mut m, "Invalid hex number: ");
            push_str(&mut m, int_err_str(e));
            assert(m@ =~= "Invalid hex number: "@ + int_err_text(e));
            Err(arg_err(arg, string_of(&m)))
        },
    }
}

/// A byte operand, in hexadecimal or decimal.
pub fn parse_xx(arg: &AsmArg) -> (r: Result<u8, ErrInfo>)
    ensures
        res(r) == xx_spec(arg@),
{
    let v = match parse_hex(arg) {
        Ok(v) => Some(v as u32),
        Err(_) => {
            let t = chars_of(arg.s.as_str());
            assert(t@.skip(0) == t@);
            match parse_uint_chars(&t, 0, 10, 0xFFFF) {
                Ok(v) => Some(v),
                Err(_) => None,
            }
        },
    };
    match v {
        None => Err(arg_err(arg, lit("Invalid byte argument"))),
        Some(v) => {
            if v > 0xFF {
                Err(arg_err(arg, lit("Byte argument larger than 0xFF")))
            } else {
                Ok(v as u8)
            }
        },
    }
}

/// A 12-bit address operand, in hexadecimal.
pub fn parse_nnn(arg: &AsmArg) -> (r: Result<u16, ErrInfo>)
    ensures
        res(r) == nnn_spec(arg@),
{
    match parse_hex(arg) {
        Err(e) => Err(e),
        Ok(v) => {
            if v > 0xFFF {
                Err(arg_err(arg, lit("Address argument larger than 0xFFF")))
            } else {
                Ok(v)
            }
        },
    }
}

/// A 16-bit address operand, in hexadecimal.
pub fn parse_extended_addr(arg: &AsmArg) -> (r: Result<u16, ErrInfo>)
    ensures
        res(r) == hex_spec(arg@),
{
    parse_hex(arg)
}

/// A 12-bit address operand, or else the name of a label.
pub fn parse_nnn_or_symbol(arg: &AsmArg) -> (r: AddressOrSymbol)
    ensures
        r@ == target_spec(arg@),
{
    match parse_nnn(arg) {
        Ok(v) => AddressOrSymbol::Address(v),
        Err(_) => AddressOrSymbol::Symbol(arg.s.clone()),
    }
}

/// A sprite height operand: a decimal numeral below 16.
pub fn parse_n(arg: &AsmArg) -> (r: Result<u8, ErrInfo>)
    ensures
        res(r) == n_spec(arg@),
        r is Ok ==> r->Ok_0 < 16,
{
    let t = chars_of(arg.s.as_str());
    assert(t@.skip(0) == t@);
    match parse_uint_chars(&t, 0, 10, 0xFF) {
        Err(e) => Err(arg_err(arg, lit(int_err_str(e)))),
        Ok(v) => {
            if v > 15 {
                Err(arg_err(arg, lit("Nibble must be < 16")))
            } else {
                Ok(v as u8)
            }
        },
    }
}

/// The values of a sequence of instructions.
pub open spec fn ivs(v: Seq<Instr>) -> Seq<InstrView> {
    v.map_values(|i: Instr| i@)
}

/// What one line amounts to, as values the assembler can hold.
pub enum Line {
    Code(Vec<Instr>),
    Label(Vec<char>, usize, usize),
    Fail(ErrInfo),
}

impl View for Line {
    type V = LineOutcome;

    open spec fn view(&self) -> LineOutcome {
        match self {
            Line::Code(v) => LineOutcome::Code(ivs(v@)),
            Line::Label(name, pos, len) => LineOutcome::Label(name@, *pos as int, *len as int),
            Line::Fail(e) => LineOutcome::Fail(e@),
        }
    }
}

fn code1(i: Instr) -> (r: Line)
    ensures
        r@ == LineOutcome::Code(seq![i@]),
{
    let mut v: Vec<Instr> = Vec::new();
    v.push(i);
    assert(ivs(v@) =~= seq![i@]);
    Line::Code(v)
}

fn ext_load(addr: u16) -> (r: Vec<Instr>)
    requires
        addr > 0xFFF,
    ensures
        ivs(r@) == ext_load_spec(addr),
{
    let rest = addr - 0xFFF;
    let adds = rest / 0xFF;
    let rem = rest % 0xFF;
    let mut v: Vec<Instr> = Vec::new();
    v.push(Instr::address(AddrOp::LdI, 0xFFF));
    let ghost head = ivs(v@);
    assert(head =~= seq![InstrView::Addr(AddrOp::LdI, Target::Address(0xFFF))]);
    if adds != 0 {
        v.push(Instr::byte(ByteOp::Ld, 14, 0xFF));
        let mut k: u16 = 0;
        while k < adds
            invariant
                k <= adds,
                ivs(v@) == head + seq![InstrView::Byte(ByteOp::Ld, 14, 0xFF)] + Seq::new(
                    k as nat,
                    |j: int| InstrView::Reg(RegOp::AddI, 14),
                ),
            decreases adds - k,
        {
            let ghost prev = ivs(v@);
            v.push(Instr::reg(RegOp::AddI, 14));
            assert(ivs(v@) =~= prev.push(InstrView::Reg(RegOp::AddI, 14)));
            assert(Seq::new((k + 1) as nat, |j: int| InstrView::Reg(RegOp::AddI, 14)) =~= Seq::new(
                k as nat,
                |j: int| InstrView::Reg(RegOp::AddI, 14),
            ).push(InstrView::Reg(RegOp::AddI, 14)));
            k = k + 1;
            assert(ivs(v@) =~= head + seq![InstrView::Byte(ByteOp::Ld, 14, 0xFF)] + Seq::new(
                k as nat,
                |j: int| InstrView::Reg(RegOp::AddI, 14),
            ));
        }
    }
    let ghost mid = ivs(v@);
    if rem != 0 {
        v.push(Instr::byte(ByteOp::Ld, 14, rem as u8));
        v.push(Instr::reg(RegOp::AddI, 14));
        assert(ivs(v@) =~= mid + seq![
            InstrView::Byte(ByteOp::Ld, 14, rem as u8),
            InstrView::Reg(RegOp::AddI, 14),
        ]);
    } else {
        assert(ivs(v@) =~= mid + Seq::<InstrView>::empty());
    }
    assert(ivs(v@) =~= ext_load_spec(addr));
    v
}

fn jp_line(args: &Vec<AsmArg>) -> (r: Line)
    requires
        well_formed(args@),
        1 <= args.len() <= 2,
    ensures
        r@ == jp_spec(toks(args@)),
{
    if args.len() == 2 {
        match parse_vx(&args[0]) {
            Err(e) => Line::Fail(e),
            Ok(v) => {
                if v != 0 {
                    Line::Fail(arg_err(&args[0], lit("Jump plus instruction can only use V0!")))
                } else {
                    code1(Instr::Addr(AddrOp::JpV0, parse_nnn_or_symbol(&args[1])))
                }
            },
        }
    } else {
        code1(Instr::Addr(AddrOp::Jp, parse_nnn_or_symbol(&args[0])))
    }
}

fn skip_line(args: &Vec<AsmArg>, bop: ByteOp, pop: PairOp, name: &str) -> (r: Line)
    requires
        well_formed(args@),
        args.len() == 2,
    ensures
        r@ == skip_spec(toks(args@), bop, pop, name@),
{
    match parse_vx(&args[0]) {
        Err(e) => Line::Fail(e),
        Ok(x) => match parse_vx(&args[1]) {
            Ok(y) => code1(Instr::pair(pop, x, y)),
            Err(_) => match parse_xx(&args[1]) {
                Ok(kk) => code1(Instr::byte(bop, x, kk)),
                Err(_) => {
                    let mut m: Vec<char> = Vec::new();
                    push_str(&mut m, "Invalid argument 2 for ");
                    push_str(&mut m, name);
                    push_str(&mut m, " instruction");
                    assert(m@ =~= "Invalid argument 2 for "@ + name@ + " instruction"@);
                    Line::Fail(arg_err(&args[1], string_of(&m)))
                },
            },
        },
    }
}

fn add_line(args: &Vec<AsmArg>) -> (r: Line)
    requires
        well_formed(args@),
        args.len() == 2,
    ensures
        r@ == add_spec(toks(args@)),
{
    match parse_vx(&args[0]) {
        Ok(x) => match parse_vx(&args[1]) {
            Ok(y) => code1(Instr::pair(PairOp::Add, x, y)),
            Err(_) => match parse_xx(&args[1]) {
                Ok(kk) => code1(Instr::byte(ByteOp::Add, x, kk)),
                Err(_) => Line::Fail(
                    ErrInfo::new(lit("Invalid arguments for ADD instruction"), args[1].pos, 0),
                ),
            },
        },
        Err(_) => {
            if args[0].str_cmp("I") {
                match parse_vx(&args[1]) {
                    Err(e) => Line::Fail(e),
                    Ok(x) => code1(Instr::reg(RegOp::AddI, x)),
                }
            } else {
                Line::Fail(ErrInfo::new(lit("Invalid args for ADD instruction"), args[0].pos, 0))
            }
        },
    }
}

fn reg_second_line(op: RegOp, args: &Vec<AsmArg>) -> (r: Line)
    requires
        well_formed(args@),
        args.len() == 2,
    ensures
        r@ == reg_second_spec(op, toks(args@)),
{
    match parse_vx(&args[1]) {
        Err(e) => Line::Fail(e),
        Ok(x) => code1(Instr::reg(op, x)),
    }
}

fn ld_line(args: &Vec<AsmArg>) -> (r: Line)
    requires
        well_formed(args@),
        args.len() == 2,
    ensures
        r@ == ld_spec(toks(args@)),
{
    match parse_vx(&args[0]) {
        Ok(x) => {
            let ghost t = toks(args@);
            match parse_xx(&args[1]) {
                Ok(kk) => code1(Instr::byte(ByteOp::Ld, x, kk)),
                Err(_) => match parse_vx(&args[1]) {
                    Ok(y) => code1(Instr::pair(PairOp::Ld, x, y)),
                    Err(_) => {
                        if args[1].str_cmp("DT") {
                            code1(Instr::reg(RegOp::GetDelay, x))
                        } else if args[1].str_cmp("K") {
                            code1(Instr::reg(RegOp::WaitKey, x))
                        } else if args[1].str_cmp("[I]") {
                            code1(Instr::reg(RegOp::Load, x))
                        } else {
                            Line::Fail(
                                ErrInfo::new(
                                    lit("Invalid args to LD instruction"),
                                    args[0].pos,
                                    0,
                                ),
                            )
                        }
                    },
                },
            }
        },
        Err(_) => {
            if args[0].str_cmp("I") {
                match parse_extended_addr(&args[1]) {
                    Ok(a) => {
                        if a <= 0xFFF {
                            code1(Instr::address(AddrOp::LdI, a))
                        } else {
                            Line::Code(ext_load(a))
                        }
                    },
                    Err(_) => code1(Instr::Addr(AddrOp::LdI, parse_nnn_or_symbol(&args[1]))),
                }
            } else if args[0].str_cmp("DT") {
                reg_second_line(RegOp::SetDelay, args)
            } else if args[0].str_cmp("ST") {
                reg_second_line(RegOp::SetSound, args)
            } else if args[0].str_cmp("F") {
                reg_second_line(RegOp::Digit, args)
            } else if args[0].str_cmp("B") {
                reg_second_line(RegOp::Bcd, args)
            } else if args[0].str_cmp("[I]") {
                reg_second_line(RegOp::Store, args)
            } else {
                Line::Fail(ErrInfo::new(lit("Invalid args to LD instruction"), args[0].pos, 0))
            }
        },
    }
}

fn rnd_line(args: &Vec<AsmArg>) -> (r: Line)
    requires
        well_formed(args@),
        args.len() == 2,
    ensures
        r@ == rnd_spec(toks(args@)),
{
    match parse_vx(&args[0]) {
        Err(e) => Line::Fail(e),
        Ok(x) => match parse_xx(&args[1]) {
            Err(e) => Line::Fail(e),
            Ok(kk) => code1(Instr::byte(ByteOp::Rnd, x, kk)),
        },
    }
}

fn drw_line(args: &Vec<AsmArg>) -> (r: Line)
    requires
        well_formed(args@),
        args.len() == 3,
    ensures
        r@ == drw_spec(toks(args@)),
{
    match parse_vx(&args[0]) {
        Err(e) => Line::Fail(e),
        Ok(x) => match parse_vx(&args[1]) {
            Err(e) => Line::Fail(e),
            Ok(y) => match parse_n(&args[2]) {
                Err(e) => Line::Fail(e),
                Ok(n) => code1(Instr::Draw(DrawSpriteInstr::create(x, y, n))),
            },
        },
    }
}

fn pair_line(op: PairOp, args: &Vec<AsmArg>) -> (r: Line)
    requires
        well_formed(args@),
        args.len() == 2,
    ensures
        r@ == pair_spec(op, toks(args@)),
{
    match parse_vx(&args[0]) {
        Err(e) => Line::Fail(e),
        Ok(x) => match parse_vx(&args[1]) {
            Err(e) => Line::Fail(e),
            Ok(y) => code1(Instr::pair(op, x, y)),
        },
    }
}

fn shift_line(op: PairOp, args: &Vec<AsmArg>) -> (r: Line)
    requires
        well_formed(args@),
        args.len() == 1,
    ensures
        r@ == shift_spec(op, toks(args@)),
{
    match parse_vx(&args[0]) {
        Err(e) => Line::Fail(e),
        Ok(x) => code1(Instr::pair(op, x, 0)),
    }
}

fn key_line(op: RegOp, args: &Vec<AsmArg>) -> (r: Line)
    requires
        well_formed(args@),
        args.len() == 1,
    ensures
        r@ == key_spec(op, toks(args@)),
{
    match parse_vx(&args[0]) {
        Err(e) => Line::Fail(e),
        Ok(x) => code1(Instr::reg(op, x)),
    }
}

fn arity_err(m: &AsmArg, k: usize, got: usize) -> (r: Line)
    ensures
        r@ == LineOutcome::Fail(
            tok_err(
                m@,
                "Expected "@ + dec_text(k as nat) + " args for "@ + m.s@ + ", got "@ + dec_text(
                    got as nat,
                ),
            ),
        ),
{
    let mut msg: Vec<char> = Vec::new();
    push_str(&mut msg, "Expected ");
    push_dec(&mut msg, k);
    push_str(&mut msg, " args for ");
    push_str(&mut msg, m.s.as_str());
    push_str(&mut msg, ", got ");
    push_dec(&mut msg, got);
    assert(msg@ =~= "Expected "@ + dec_text(k as nat) + " args for "@ + m.s@ + ", got "@
        + dec_text(got as nat));
    Line::Fail(arg_err(m, string_of(&msg)))
}


/// What one line of assembly amounts to.
fn parse_line(line: &Vec<char>) -> (r: Line)
    ensures
        r@ == line_spec(line@),
{
    let stripped = strip_comment_chars(line);
    let mut args = tokenize(&stripped);
    if args.len() == 0 {
        let v: Vec<Instr> = Vec::new();
        assert(ivs(v@) =~= Seq::<InstrView>::empty());
        return Line::Code(v);
    }
    let ghost all = args@;
    let m = args.remove(0);
    assert(toks(args@) =~= toks(all).skip(1));
    assert(well_formed(args@)) by {
        assert forall|k: int| 0 <= k < args@.len() implies (#[trigger] args@[k]).s@.len() > 0
            && args@[k].upper@ == upper_of(args@[k].s@) by {
            assert(args@[k] == all[k + 1]);
        }
    }
    assert(m == all[0]);
    let mt = chars_of(m.s.as_str());
    if args.len() == 0 && mt[mt.len() - 1] == ':' {
        return Line::Label(sub_chars(&mt, 0, mt.len() - 1), m.pos, mt.len());
    }
    parse_instruction(&m, &args)
}

/// What the mnemonic token `m`, whose `upper` field holds its upper-case
/// form, amounts to with the operand tokens `args`.
pub fn parse_instruction(m: &AsmArg, args: &Vec<AsmArg>) -> (r: Line)
    requires
        well_formed(args@),
    ensures
        r@ == instr_spec(m@, m.upper@, toks(args@)),
{
    let mt = chars_of(m.s.as_str());
    let u = chars_of(m.upper.as_str());
    let n = args.len();
    if chars_eq(&u, "JP") {
        if n == 0 || n > 2 {
            let mut msg: Vec<char> = Vec::new();
            push_str(&mut msg, "Expected 1 or 2 args for JP instruction, got ");
            push_dec(&mut msg, n);
            assert(msg@ =~= "Expected 1 or 2 args for JP instruction, got "@ + dec_text(n as nat));
            Line::Fail(ErrInfo::new(string_of(&msg), m.pos, 0))
        } else {
            jp_line(args)
        }
    } else if chars_eq(&u, "CLS") {
        if n != 0 {
            return arity_err(m, 0, n);
        }
        code1(Instr::plain(NoArgOp::Cls))
    } else if chars_eq(&u, "RET") {
        if n != 0 {
            return arity_err(m, 0, n);
        }
        code1(Instr::plain(NoArgOp::Ret))
    } else if chars_eq(&u, "BRK") {
        if n != 0 {
            return arity_err(m, 0, n);
        }
        code1(Instr::address(AddrOp::Sys, 0xFFF))
    } else if chars_eq(&u, ".WORD") {
        if n != 1 {
            return arity_err(m, 1, n);
        }
        match parse_extended_addr(&args[0]) {
            Err(e) => Line::Fail(e),
            Ok(w) => code1(Instr::Word(WordInstr::create(w))),
        }
    } else if chars_eq(&u, "SYS") {
        if n != 1 {
            return arity_err(m, 1, n);
        }
        code1(Instr::Addr(AddrOp::Sys, parse_nnn_or_symbol(&args[0])))
    } else if chars_eq(&u, "CALL") {
        if n != 1 {
            return arity_err(m, 1, n);
        }
        code1(Instr::Addr(AddrOp::Call, parse_nnn_or_symbol(&args[0])))
    } else if chars_eq(&u, "SHR") {
        if n != 1 {
            return arity_err(m, 1, n);
        }
        shift_line(PairOp::Shr, args)
    } else if chars_eq(&u, "SHL") {
        if n != 1 {
            return arity_err(m, 1, n);
        }
        shift_line(PairOp::Shl, args)
    } else if chars_eq(&u, "SKP") {
        if n != 1 {
            return arity_err(m, 1, n);
        }
        key_line(RegOp::Skp, args)
    } else if chars_eq(&u, "SKNP") {
        if n != 1 {
            return arity_err(m, 1, n);
        }
        key_line(RegOp::Sknp, args)
    } else if chars_eq(&u, "RND") {
        if n != 2 {
            return arity_err(m, 2, n);
        }
        rnd_line(args)
    } else if chars_eq(&u, "SE") {
        if n != 2 {
            return arity_err(m, 2, n);
        }
        skip_line(args, ByteOp::Se, PairOp::Se, "SE")
    } else if chars_eq(&u, "SNE") {
        if n != 2 {
            return arity_err(m, 2, n);
        }
        skip_line(args, ByteOp::Sne, PairOp::Sne, "SNE")
    } else if chars_eq(&u, "ADD") {
        if n != 2 {
            return arity_err(m, 2, n);
        }
        add_line(args)
    } else if chars_eq(&u, "LD") {
        if n != 2 {
            return arity_err(m, 2, n);
        }
        ld_line(args)
    } else if chars_eq(&u, "OR") {
        if n != 2 {
            return arity_err(m, 2, n);
        }
        pair_line(PairOp::Or, args)
    } else if chars_eq(&u, "XOR") {
        if n != 2 {
            return arity_err(m, 2, n);
        }
        pair_line(PairOp::Xor, args)
    } else if chars_eq(&u, "AND") {
        if n != 2 {
            return arity_err(m, 2, n);
        }
        pair_line(PairOp::And, args)
    } else if chars_eq(&u, "SUB") {
        if n != 2 {
            return arity_err(m, 2, n);
        }
        pair_line(PairOp::Sub, args)
    } else if chars_eq(&u, "SUBN") {
        if n != 2 {
            return arity_err(m, 2, n);
        }
        pair_line(PairOp::Subn, args)
    } else if chars_eq(&u, "DRW") {
        if n != 3 {
            return arity_err(m, 3, n);
        }
        drw_line(args)
    } else {
        let mut msg: Vec<char> = Vec::new();
        push_str(&mut msg, "Can't get number of args for mnemonic: ");
        push_chars(&mut msg, &mt);
        assert(msg@ =~= "Can't get number of args for mnemonic: "@ + mt@);
        Line::Fail(arg_err(m, string_of(&msg)))
    }
}


/// The state of pass one: the instructions emitted, the labels bound (each
/// to the index of the instruction that follows it), and the errors met.
pub struct Pass1 {
    pub instrs: Seq<InstrView>,
    pub labels: Seq<(Seq<char>, nat)>,
    pub errs: Seq<Diag>,
}

/// The instruction index a label is bound to.
pub open spec fn find_label(labels: Seq<(Seq<char>, nat)>, name: Seq<char>) -> Option<nat>
    decreases labels.len(),
{
    if labels.len() == 0 {
        None
    } else if labels.last().0 == name {
        Some(labels.last().1)
    } else {
        find_label(labels.drop_last(), name)
    }
}

/// Pass one over `lines`: a label already bound is an error at its second
/// definition; any other line error is recorded and the scan goes on.
pub open spec fn pass1(lines: Seq<Seq<char>>) -> Pass1
    decreases lines.len(),
{
    if lines.len() == 0 {
        Pass1 { instrs: Seq::empty(), labels: Seq::empty(), errs: Seq::empty() }
    } else {
        let st = pass1(lines.drop_last());
        let k = lines.len() - 1;
        let line = lines.last();
        match line_spec(line) {
            LineOutcome::Code(is) => Pass1 { instrs: st.instrs + is, ..st },
            LineOutcome::Label(name, pos, len) => if find_label(st.labels, name) is Some {
                Pass1 {
                    errs: st.errs.push(
                        Diag { line_no: k, line, err: ErrView { msg: "Label repeated"@, pos, len } },
                    ),
                    ..st
                }
            } else {
                Pass1 { labels: st.labels.push((name, st.instrs.len())), ..st }
            },
            LineOutcome::Fail(e) => Pass1 { errs: st.errs.push(Diag { line_no: k, line, err: e }), ..st },
        }
    }
}

/// The address of the instruction at `index`: instructions are two bytes
/// each, from [`crate::system::PROGRAM_START`].
pub open spec fn label_address(index: nat) -> int {
    (0x200 + 2 * index) as int
}

/// An instruction with its label replaced by the label's address, or the
/// message for a label that is not bound or lies beyond 12 bits.
pub open spec fn resolve_spec(i: InstrView, labels: Seq<(Seq<char>, nat)>) -> Result<
    InstrView,
    Seq<char>,
> {
    match i {
        InstrView::Addr(op, Target::Symbol(s)) => match find_label(labels, s) {
            None => Err("Could not resolve symbol \""@ + s + "\""@),
            Some(idx) => if label_address(idx) > 0xFFF {
                Err("Address of label \""@ + s + "\" does not fit in 12 bits"@)
            } else {
                Ok(InstrView::Addr(op, Target::Address(label_address(idx) as u16)))
            },
        },
        _ => Ok(i),
    }
}

/// A diagnostic that belongs to no line.
pub open spec fn file_diag(msg: Seq<char>) -> Diag {
    Diag { line_no: 0, line: Seq::empty(), err: ErrView { msg, pos: 0, len: 1 } }
}

/// Pass two: every instruction resolved, and a diagnostic for each that
/// cannot be.
pub open spec fn pass2(instrs: Seq<InstrView>, labels: Seq<(Seq<char>, nat)>) -> (
    Seq<InstrView>,
    Seq<Diag>,
)
    decreases instrs.len(),
{
    if instrs.len() == 0 {
        (Seq::empty(), Seq::empty())
    } else {
        let (rs, es) = pass2(instrs.drop_last(), labels);
        match resolve_spec(instrs.last(), labels) {
            Ok(i) => (rs.push(i), es),
            Err(msg) => (rs, es.push(file_diag(msg))),
        }
    }
}

/// Whether an instruction of `instrs` refers to the label `name`.
pub open spec fn referenced(instrs: Seq<InstrView>, name: Seq<char>) -> bool {
    exists|j: int| 0 <= j < instrs.len() && #[trigger] instrs[j].symbol() == Some(name)
}

/// A warning for each label that no instruction refers to, in the order of
/// definition.
pub open spec fn unused_warnings(
    labels: Seq<(Seq<char>, nat)>,
    instrs: Seq<InstrView>,
    file: Seq<char>,
) -> Seq<Seq<char>>
    decreases labels.len(),
{
    if labels.len() == 0 {
        Seq::empty()
    } else {
        let ws = unused_warnings(labels.drop_last(), instrs, file);
        let name = labels.last().0;
        if referenced(instrs, name) {
            ws
        } else {
            ws.push(file + ": warning: Unused label \""@ + name + "\""@)
        }
    }
}

/// The number of characters a diagnostic's marker spans.
pub open spec fn span_len(d: Diag) -> int {
    if d.err.len == 0 {
        d.line.len() - d.err.pos
    } else {
        d.err.len
    }
}

/// A diagnostic as `file:line:col: error: message`, the line, and under it
/// a `^` at the column followed by `~` over the rest of the span.
pub open spec fn diag_text(d: Diag, file: Seq<char>) -> Seq<char> {
    file + ":"@ + dec_text(d.line_no as nat) + ":"@ + dec_text(d.err.pos as nat) + ": error: "@
        + d.err.msg + "\n"@ + d.line + "\n"@ + repeat_char(' ', d.err.pos as nat) + "^"@
        + repeat_char(
        '~',
        (if span_len(d) > 1 {
            span_len(d) - 1
        } else {
            0
        }) as nat,
    )
}

/// All diagnostics, one after the other, separated by newlines.
pub open spec fn report(errs: Seq<Diag>, file: Seq<char>) -> Seq<char>
    decreases errs.len(),
{
    if errs.len() == 0 {
        Seq::empty()
    } else if errs.len() == 1 {
        diag_text(errs[0], file)
    } else {
        report(errs.drop_last(), file) + "\n"@ + diag_text(errs.last(), file)
    }
}

/// The diagnostics of assembling `text`: those of pass one, then those of
/// pass two.
pub open spec fn diagnostics(text: Seq<char>) -> Seq<Diag> {
    let p1 = pass1(lines_of(text));
    p1.errs + pass2(p1.instrs, p1.labels).1
}

/// The result of assembling `text` from the file named `file`: the
/// resolved instructions when there are no diagnostics, else the report of
/// all of them.
pub open spec fn assemble(text: Seq<char>, file: Seq<char>) -> Result<Seq<InstrView>, Seq<char>> {
    let p1 = pass1(lines_of(text));
    if diagnostics(text).len() == 0 {
        Ok(pass2(p1.instrs, p1.labels).0)
    } else {
        Err(report(diagnostics(text), file))
    }
}

/// The warnings of assembling `text` from the file named `file`.
pub open spec fn assembly_warnings(text: Seq<char>, file: Seq<char>) -> Seq<Seq<char>> {
    let p1 = pass1(lines_of(text));
    unused_warnings(p1.labels, p1.instrs, file)
}


/// The value of a label table.
pub open spec fn lview(labels: Seq<(Vec<char>, usize)>) -> Seq<(Seq<char>, nat)> {
    labels.map_values(|p: (Vec<char>, usize)| (p.0@, p.1 as nat))
}

/// A diagnostic as the assembler holds it.
struct Diagnostic {
    line_no: usize,
    line: Vec<char>,
    err: ErrInfo,
}

impl View for Diagnostic {
    type V = Diag;

    closed spec fn view(&self) -> Diag {
        Diag { line_no: self.line_no as int, line: self.line@, err: self.err@ }
    }
}

spec fn dview(ds: Seq<Diagnostic>) -> Seq<Diag> {
    ds.map_values(|d: Diagnostic| d@)
}

fn lookup_label(labels: &Vec<(Vec<char>, usize)>, name: &Vec<char>) -> (r: Option<usize>)
    ensures
        match r {
            Some(i) => find_label(lview(labels@), name@) == Some(i as nat),
            None => find_label(lview(labels@), name@) is None,
        },
{
    let mut k: usize = labels.len();
    assert(labels@.take(k as int) =~= labels@);
    while k > 0
        invariant
            k <= labels.len(),
            find_label(lview(labels@), name@) == find_label(lview(labels@.take(k as int)), name@),
        decreases k,
    {
        let ghost prefix = lview(labels@.take(k as int));
        assert(prefix.drop_last() =~= lview(labels@.take(k - 1)));
        assert(prefix.last() == (labels@[k - 1].0@, labels@[k - 1].1 as nat));
        if same_chars(&labels[k - 1].0, name) {
            return Some(labels[k - 1].1);
        }
        k = k - 1;
    }
    None
}

fn is_referenced(instrs: &Vec<Instr>, name: &Vec<char>) -> (r: bool)
    ensures
        r == referenced(ivs(instrs@), name@),
{
    let mut j: usize = 0;
    while j < instrs.len()
        invariant
            j <= instrs.len(),
            forall|i: int| 0 <= i < j ==> (#[trigger] ivs(instrs@)[i]).symbol() != Some(name@),
        decreases instrs.len() - j,
    {
        match instrs[j].get_symbol() {
            Some(s) => {
                if same_chars(&chars_of(s.as_str()), name) {
                    assert(ivs(instrs@)[j as int].symbol() == Some(name@));
                    return true;
                }
            },
            None => {},
        }
        j = j + 1;
    }
    false
}

fn push_diag(out: &mut Vec<char>, d: &Diagnostic, file: &Vec<char>)
    ensures
        final(out)@ == old(out)@ + diag_text(d@, file@),
{
    let ghost start = out@;
    push_chars(out, file);
    push_str(out, ":");
    push_dec(out, d.line_no);
    push_str(out, ":");
    push_dec(out, d.err.pos);
    push_str(out, ": error: ");
    push_str(out, d.err.msg.as_str());
    push_str(out, "\n");
    push_chars(out, &d.line);
    push_str(out, "\n");
    push_repeat(out, ' ', d.err.pos);
    push_str(out, "^");
    let span: usize = if d.err.len == 0 {
        if d.line.len() > d.err.pos {
            d.line.len() - d.err.pos
        } else {
            0
        }
    } else {
        d.err.len
    };
    let tildes: usize = if span > 1 {
        span - 1
    } else {
        0
    };
    push_repeat(out, '~', tildes);
    assert(out@ =~= start + diag_text(d@, file@));
}

fn render(errs: &Vec<Diagnostic>, file: &Vec<char>) -> (r: String)
    ensures
        r@ == report(dview(errs@), file@),
{
    let mut out: Vec<char> = Vec::new();
    let mut k: usize = 0;
    while k < errs.len()
        invariant
            k <= errs.len(),
            out@ == report(dview(errs@).take(k as int), file@),
        decreases errs.len() - k,
    {
        let ghost before = out@;
        if k > 0 {
            push_str(&mut out, "\n");
        }
        push_diag(&mut out, &errs[k], file);
        k = k + 1;
        let ghost pre = dview(errs@).take(k as int);
        assert(pre.drop_last() =~= dview(errs@).take(k - 1));
        assert(pre.last() == errs@[k - 1]@);
        if k == 1 {
            assert(pre[0] == errs@[0]@);
            assert(out@ =~= report(pre, file@));
        }
    }
    assert(dview(errs@).take(errs.len() as int) =~= dview(errs@));
    string_of(&out)
}

fn line_diag(k: usize, line: &Vec<char>, err: ErrInfo) -> (r: Diagnostic)
    ensures
        r@ == (Diag { line_no: k as int, line: line@, err: err@ }),
{
    let copy = sub_chars(line, 0, line.len());
    assert(copy@ =~= line@);
    Diagnostic { line_no: k, line: copy, err }
}

fn message_with_name(before: &str, name: &Vec<char>, after: &str) -> (r: String)
    ensures
        r@ == before@ + name@ + after@,
{
    let mut m: Vec<char> = Vec::new();
    push_str(&mut m, before);
    push_chars(&mut m, name);
    push_str(&mut m, after);
    assert(m@ =~= before@ + name@ + after@);
    string_of(&m)
}

/// Assembles `source`, read from the file named `filename`, into instructions.
/// Every line is scanned, and every error of the file is reported in one
/// message, each as `file:line:col: error: message`, the line and a marker.
/// A warning for each label that nothing refers to is appended to
/// `warnings`, whether the assembly succeeds or not.
pub fn parse_asm(source: &str, filename: &str, warnings: &mut Vec<String>) -> (r: Result<
    Vec<Instr>,
    String,
>)
    ensures
        match assemble(source@, filename@) {
            Ok(is) => r is Ok && ivs(r->Ok_0@) == is,
            Err(msg) => r is Err && r->Err_0@ == msg,
        },
        r is Ok ==> forall|k: int|
            0 <= k < r->Ok_0@.len() ==> (#[trigger] r->Ok_0@[k])@.wf() && r->Ok_0@[k]@.resolved(),
        final(warnings)@.map_values(|w: String| w@) == old(warnings)@.map_values(|w: String| w@)
            + assembly_warnings(source@, filename@),
{
    let text = chars_of(source);
    let file = chars_of(filename);
    let lines = split_lines(&text);
    let ghost lv = lines@.map_values(|v: Vec<char>| v@);
    let mut instrs: Vec<Instr> = Vec::new();
    let mut labels: Vec<(Vec<char>, usize)> = Vec::new();
    let mut errs: Vec<Diagnostic> = Vec::new();
    let mut k: usize = 0;
    assert(lv.take(0) =~= Seq::<Seq<char>>::empty());
    assert(ivs(instrs@) =~= Seq::<InstrView>::empty());
    assert(lview(labels@) =~= Seq::<(Seq<char>, nat)>::empty());
    assert(dview(errs@) =~= Seq::<Diag>::empty());
    while k < lines.len()
        invariant
            k <= lines.len(),
            lv == lines@.map_values(|v: Vec<char>| v@),
            lv == lines_of(text@),
            pass1(lv.take(k as int)) == (Pass1 {
                instrs: ivs(instrs@),
                labels: lview(labels@),
                errs: dview(errs@),
            }),
        decreases lines.len() - k,
    {
        let ghost st = pass1(lv.take(k as int));
        assert(lv.take(k + 1).drop_last() =~= lv.take(k as int));
        assert(lv.take(k + 1).last() == lines@[k as int]@);
        let ghost old_instrs = ivs(instrs@);
        let ghost old_labels = lview(labels@);
        let ghost old_errs = dview(errs@);
        match parse_line(&lines[k]) {
            Line::Code(mut is) => {
                let ghost added = ivs(is@);
                instrs.append(&mut is);
                assert(ivs(instrs@) =~= old_instrs + added);
            },
            Line::Label(name, pos, len) => {
                match lookup_label(&labels, &name) {
                    Some(_) => {
                        let d = line_diag(k, &lines[k], ErrInfo::new(lit("Label repeated"), pos, len));
                        errs.push(d);
                        assert(dview(errs@) =~= old_errs.push(d@));
                    },
                    None => {
                        let ghost nv = name@;
                        let n = instrs.len();
                        labels.push((name, n));
                        assert(lview(labels@) =~= old_labels.push((nv, n as nat)));
                    },
                }
            },
            Line::Fail(e) => {
                let d = line_diag(k, &lines[k], e);
                errs.push(d);
                assert(dview(errs@) =~= old_errs.push(d@));
            },
        }
        k = k + 1;
    }
    assert(lv.take(lines.len() as int) =~= lv);
    let ghost p1 = pass1(lv);
    let n_before = errs.len();
    let mut resolved: Vec<Instr> = Vec::new();
    let mut j: usize = 0;
    assert(ivs(instrs@).take(0) =~= Seq::<InstrView>::empty());
    assert(ivs(resolved@) =~= Seq::<InstrView>::empty());
    assert(p1.errs + Seq::<Diag>::empty() =~= p1.errs);
    while j < instrs.len()
        invariant
            j <= instrs.len(),
            n_before <= errs.len(),
            p1.instrs == ivs(instrs@),
            p1.labels == lview(labels@),
            dview(errs@) == p1.errs + pass2(ivs(instrs@).take(j as int), p1.labels).1,
            ivs(resolved@) == pass2(ivs(instrs@).take(j as int), p1.labels).0,
        decreases instrs.len() - j,
    {
        let ghost pre = ivs(instrs@).take(j + 1);
        assert(pre.drop_last() =~= ivs(instrs@).take(j as int));
        assert(pre.last() == instrs@[j as int]@);
        let ghost old_errs = dview(errs@);
        let ghost old_res = ivs(resolved@);
        let ins = instrs[j].copy();
        match ins.get_symbol() {
            None => {
                resolved.push(ins);
                assert(ivs(resolved@) =~= old_res.push(instrs@[j as int]@));
            },
            Some(sym) => {
                let name = chars_of(sym.as_str());
                match lookup_label(&labels, &name) {
                    None => {
                        let msg = message_with_name("Could not resolve symbol \"", &name, "\"");
                        let d = Diagnostic { line_no: 0, line: Vec::new(), err: ErrInfo::new(msg, 0, 1) };
                        assert(d@.line =~= Seq::<char>::empty());
                        errs.push(d);
                        assert(dview(errs@) =~= old_errs.push(d@));
                    },
                    Some(idx) => {
                        if idx > 0x6FF {
                            let msg = message_with_name("Address of label \"", &name, "\" does not fit in 12 bits");
                            let d = Diagnostic { line_no: 0, line: Vec::new(), err: ErrInfo::new(msg, 0, 1) };
                            assert(d@.line =~= Seq::<char>::empty());
                            errs.push(d);
                            assert(dview(errs@) =~= old_errs.push(d@));
                        } else {
                            let addr = (0x200 + 2 * idx) as u16;
                            let ghost iv = ins@;
                            resolved.push(ins.resolve_symbol(addr));
                            assert(ivs(resolved@) =~= old_res.push(InstrView::Addr(iv->Addr_0, Target::Address(addr))));
                        }
                    },
                }
            },
        }
        j = j + 1;
    }
    assert(ivs(instrs@).take(instrs.len() as int) =~= ivs(instrs@));
    let ghost wstart = warnings@.map_values(|w: String| w@);
    let mut k: usize = 0;
    assert(lview(labels@).take(0) =~= Seq::<(Seq<char>, nat)>::empty());
    assert(wstart + Seq::<Seq<char>>::empty() =~= wstart);
    while k < labels.len()
        invariant
            k <= labels.len(),
            p1.instrs == ivs(instrs@),
            p1.labels == lview(labels@),
            warnings@.map_values(|w: String| w@) == wstart + unused_warnings(
                lview(labels@).take(k as int),
                ivs(instrs@),
                file@,
            ),
        decreases labels.len() - k,
    {
        let ghost pre = lview(labels@).take(k + 1);
        assert(pre.drop_last() =~= lview(labels@).take(k as int));
        assert(pre.last().0 == labels@[k as int].0@);
        let ghost before = warnings@.map_values(|w: String| w@);
        if !is_referenced(&instrs, &labels[k].0) {
            let mut m: Vec<char> = Vec::new();
            push_chars(&mut m, &file);
            push_str(&mut m, ": warning: Unused label \"");
            push_chars(&mut m, &labels[k].0);
            push_str(&mut m, "\"");
            let w = string_of(&m);
            warnings.push(w);
            assert(warnings@.map_values(|w: String| w@) =~= before.push(
                file@ + ": warning: Unused label \""@ + labels@[k as int].0@ + "\""@,
            ));
        }
        k = k + 1;
    }
    assert(lview(labels@).take(labels.len() as int) =~= lview(labels@));
    proof {
        if errs.len() == 0 {
            lemma_labels_resolve(source@, filename@);
            assert forall|k: int| 0 <= k < resolved@.len() implies (#[trigger] resolved@[k])@.wf()
                && resolved@[k]@.resolved() by {
                assert(ivs(resolved@)[k] == resolved@[k]@);
            }
        }
    }
    if errs.len() > 0 {
        Err(render(&errs, &file))
    } else {
        Ok(resolved)
    }
}

/// Assembles `source`, reporting errors against the name `<str>`; warnings
/// are dropped.
pub fn parse_asm_str(source: &str) -> (r: Result<Vec<Instr>, String>)
    ensures
        match assemble(source@, "<str>"@) {
            Ok(is) => r is Ok && ivs(r->Ok_0@) == is,
            Err(msg) => r is Err && r->Err_0@ == msg,
        },
        r is Ok ==> forall|k: int|
            0 <= k < r->Ok_0@.len() ==> (#[trigger] r->Ok_0@[k])@.wf() && r->Ok_0@[k]@.resolved(),
{
    let mut warnings: Vec<String> = Vec::new();
    parse_asm(source, "<str>", &mut warnings)
}

/// Assembles `source`, reporting errors against the name `<str>` and
/// appending warnings to `warnings`.
pub fn parse_asm_str_with_warnings(source: &str, warnings: &mut Vec<String>) -> (r: Result<
    Vec<Instr>,
    String,
>)
    ensures
        match assemble(source@, "<str>"@) {
            Ok(is) => r is Ok && ivs(r->Ok_0@) == is,
            Err(msg) => r is Err && r->Err_0@ == msg,
        },
        r is Ok ==> forall|k: int|
            0 <= k < r->Ok_0@.len() ==> (#[trigger] r->Ok_0@[k])@.wf() && r->Ok_0@[k]@.resolved(),
        final(warnings)@.map_values(|w: String| w@) == old(warnings)@.map_values(|w: String| w@)
            + assembly_warnings(source@, "<str>"@),
{
    parse_asm(source, "<str>", warnings)
}


proof fn lemma_digits_range(s: Seq<char>, i: int, acc: int, radix: int, max: int)
    requires
        0 <= acc <= max,
        radix == 10 || radix == 16,
    ensures
        digits_from(s, i, acc, radix, max) is Ok ==> 0 <= digits_from(s, i, acc, radix, max)->Ok_0
            <= max,
    decreases s.len() - i,
{
    if i < s.len() {
        match digit_val(s[i], radix) {
            None => {},
            Some(d) => {
                assert(0 <= d);
                assert(acc * radix >= 0) by (nonlinear_arith)
                    requires
                        acc >= 0,
                        radix >= 0,
                ;
                if acc * radix + d <= max {
                    lemma_digits_range(s, i + 1, acc * radix + d, radix, max);
                }
            },
        }
    }
}

/// A parsed numeral lies between 0 and the bound it was parsed against.
proof fn lemma_uint_range(s: Seq<char>, radix: int, max: int)
    requires
        radix == 10 || radix == 16,
        0 <= max,
    ensures
        parse_uint(s, radix, max) is Ok ==> 0 <= parse_uint(s, radix, max)->Ok_0 <= max,
{
    lemma_digits_range(s, 0, 0, radix, max);
    lemma_digits_range(s, 1, 0, radix, max);
}

/// Every operand a token yields is in range.
proof fn lemma_tok_ranges(t: Tok)
    ensures
        vx_spec(t) is Ok ==> vx_spec(t)->Ok_0 < 16,
        n_spec(t) is Ok ==> n_spec(t)->Ok_0 < 16,
        target_spec(t) is Address ==> target_spec(t)->Address_0 <= 0xFFF,
{
    lemma_uint_range(t.text.skip(1), 10, 0xFF);
    lemma_uint_range(t.text.skip(1), 16, 0xFF);
    lemma_uint_range(t.text, 10, 0xFF);
    lemma_uint_range(t.text.skip(2), 16, 0xFFFF);
}

/// Whether every instruction of `is` has its operands in range.
pub open spec fn all_wf(is: Seq<InstrView>) -> bool {
    forall|k: int| 0 <= k < is.len() ==> (#[trigger] is[k]).wf()
}

/// A line emits only instructions with operands in range.
proof fn lemma_line_wf(line: Seq<char>)
    ensures
        line_spec(line) is Code ==> all_wf(line_spec(line)->Code_0),
{
    let toks = tokens(strip_comment(line));
    if toks.len() > 0 {
        let args = toks.skip(1);
        lemma_tok_ranges(args[0]);
        lemma_tok_ranges(args[1]);
        lemma_tok_ranges(args[2]);
        let a = hex_spec(args[1]);
        if a is Ok && a->Ok_0 > 0xFFF {
            let e = ext_load_spec(a->Ok_0);
            assert(all_wf(e));
        }
    }
}

/// Pass one emits only instructions with operands in range.
proof fn lemma_pass1_wf(lines: Seq<Seq<char>>)
    ensures
        all_wf(pass1(lines).instrs),
    decreases lines.len(),
{
    if lines.len() > 0 {
        lemma_pass1_wf(lines.drop_last());
        lemma_line_wf(lines.last());
    }
}

/// With no diagnostics, pass two resolves every instruction in place.
proof fn lemma_pass2_in_place(instrs: Seq<InstrView>, labels: Seq<(Seq<char>, nat)>)
    requires
        pass2(instrs, labels).1.len() == 0,
    ensures
        pass2(instrs, labels).0.len() == instrs.len(),
        forall|j: int|
            0 <= j < instrs.len() ==> resolve_spec(#[trigger] instrs[j], labels) == Ok::<
                InstrView,
                Seq<char>,
            >(pass2(instrs, labels).0[j]),
    decreases instrs.len(),
{
    if instrs.len() > 0 {
        let (rs, es) = pass2(instrs.drop_last(), labels);
        lemma_pass2_in_place(instrs.drop_last(), labels);
        assert forall|j: int| 0 <= j < instrs.len() implies resolve_spec(
            #[trigger] instrs[j],
            labels,
        ) == Ok::<InstrView, Seq<char>>(pass2(instrs, labels).0[j]) by {
            if j < instrs.len() - 1 {
                assert(instrs[j] == instrs.drop_last()[j]);
            }
        }
    }
}

/// Pass two records a diagnostic for each instruction it cannot resolve.
proof fn lemma_pass2_reports(instrs: Seq<InstrView>, labels: Seq<(Seq<char>, nat)>, j: int)
    requires
        0 <= j < instrs.len(),
        resolve_spec(instrs[j], labels) is Err,
    ensures
        pass2(instrs, labels).1.contains(file_diag(resolve_spec(instrs[j], labels)->Err_0)),
    decreases instrs.len(),
{
    let (rs, es) = pass2(instrs.drop_last(), labels);
    if j < instrs.len() - 1 {
        assert(instrs[j] == instrs.drop_last()[j]);
        lemma_pass2_reports(instrs.drop_last(), labels, j);
        let w = choose|w: int| 0 <= w < es.len() && es[w] == file_diag(resolve_spec(instrs[j], labels)->Err_0);
        let out = pass2(instrs, labels).1;
        assert(out[w] == es[w]);
    } else {
        let out = pass2(instrs, labels).1;
        assert(out[out.len() - 1] == file_diag(resolve_spec(instrs[j], labels)->Err_0));
    }
}

/// Once assembly succeeds, an instruction that named a label holds the
/// address of the instruction that the label precedes, `0x200 + 2 * index`,
/// whether the label is defined before or after its uses and however many
/// instructions use it; every other instruction is emitted as parsed. All
/// operands are in range and nothing is left unresolved.
pub proof fn lemma_labels_resolve(text: Seq<char>, file: Seq<char>)
    requires
        assemble(text, file) is Ok,
    ensures
        ({
            let p1 = pass1(lines_of(text));
            let out = assemble(text, file)->Ok_0;
            &&& out.len() == p1.instrs.len()
            &&& forall|j: int|
                0 <= j < out.len() ==> match #[trigger] p1.instrs[j] {
                    InstrView::Addr(op, Target::Symbol(s)) => {
                        &&& find_label(p1.labels, s) is Some
                        &&& label_address(find_label(p1.labels, s)->0) <= 0xFFF
                        &&& out[j] == InstrView::Addr(
                            op,
                            Target::Address(label_address(find_label(p1.labels, s)->0) as u16),
                        )
                    },
                    _ => out[j] == p1.instrs[j],
                }
            &&& forall|j: int| 0 <= j < out.len() ==> (#[trigger] out[j]).wf() && out[j].resolved()
        }),
{
    let p1 = pass1(lines_of(text));
    let out = assemble(text, file)->Ok_0;
    assert(p1.errs.len() + pass2(p1.instrs, p1.labels).1.len() == 0);
    lemma_pass2_in_place(p1.instrs, p1.labels);
    lemma_pass1_wf(lines_of(text));
    assert forall|j: int| 0 <= j < out.len() implies (#[trigger] out[j]).wf() && out[j].resolved() by {
        assert(resolve_spec(p1.instrs[j], p1.labels) == Ok::<InstrView, Seq<char>>(out[j]));
        assert(p1.instrs[j].wf());
    }
    assert forall|j: int| 0 <= j < out.len() implies match #[trigger] p1.instrs[j] {
        InstrView::Addr(op, Target::Symbol(s)) => {
            &&& find_label(p1.labels, s) is Some
            &&& label_address(find_label(p1.labels, s)->0) <= 0xFFF
            &&& out[j] == InstrView::Addr(
                op,
                Target::Address(label_address(find_label(p1.labels, s)->0) as u16),
            )
        },
        _ => out[j] == p1.instrs[j],
    } by {
        assert(resolve_spec(p1.instrs[j], p1.labels) == Ok::<InstrView, Seq<char>>(out[j]));
    }
}

/// An instruction that names a label no line defines fails the assembly,
/// with a diagnostic that quotes the name.
pub proof fn lemma_unresolved_symbol(text: Seq<char>, file: Seq<char>, j: int, name: Seq<char>)
    requires
        0 <= j < pass1(lines_of(text)).instrs.len(),
        pass1(lines_of(text)).instrs[j].symbol() == Some(name),
        find_label(pass1(lines_of(text)).labels, name) is None,
    ensures
        assemble(text, file) is Err,
        diagnostics(text).contains(file_diag("Could not resolve symbol \""@ + name + "\""@)),
{
    let p1 = pass1(lines_of(text));
    lemma_pass2_reports(p1.instrs, p1.labels, j);
    let es = pass2(p1.instrs, p1.labels).1;
    let d = file_diag("Could not resolve symbol \""@ + name + "\""@);
    let w = choose|w: int| 0 <= w < es.len() && es[w] == d;
    assert(diagnostics(text)[p1.errs.len() + w] == d);
}

/// The diagnostics of pass one over a prefix of the lines stay, in order,
/// in those over the whole.
proof fn lemma_pass1_errs_grow(lines: Seq<Seq<char>>, a: int)
    requires
        0 <= a <= lines.len(),
    ensures
        pass1(lines.take(a)).errs.is_prefix_of(pass1(lines).errs),
    decreases lines.len() - a,
{
    if a < lines.len() {
        lemma_pass1_errs_grow(lines, a + 1);
        assert(lines.take(a + 1).drop_last() =~= lines.take(a));
    } else {
        assert(lines.take(a) =~= lines);
    }
}

/// A label defined again on line `k` fails the assembly, with a
/// "Label repeated" diagnostic at the position of that second definition.
pub proof fn lemma_repeated_label(text: Seq<char>, file: Seq<char>, k: int)
    requires
        0 <= k < lines_of(text).len(),
        line_spec(lines_of(text)[k]) is Label,
        find_label(
            pass1(lines_of(text).take(k)).labels,
            line_spec(lines_of(text)[k])->Label_0,
        ) is Some,
    ensures
        assemble(text, file) is Err,
        diagnostics(text).contains(
            Diag {
                line_no: k,
                line: lines_of(text)[k],
                err: ErrView {
                    msg: "Label repeated"@,
                    pos: line_spec(lines_of(text)[k])->Label_1,
                    len: line_spec(lines_of(text)[k])->Label_2,
                },
            },
        ),
{
    let lines = lines_of(text);
    let d = Diag {
        line_no: k,
        line: lines[k],
        err: ErrView {
            msg: "Label repeated"@,
            pos: line_spec(lines[k])->Label_1,
            len: line_spec(lines[k])->Label_2,
        },
    };
    assert(lines.take(k + 1).drop_last() =~= lines.take(k));
    assert(lines.take(k + 1).last() == lines[k]);
    let pre = pass1(lines.take(k + 1)).errs;
    assert(pre.last() == d);
    lemma_pass1_errs_grow(lines, k + 1);
    let all = pass1(lines).errs;
    assert(all[pre.len() - 1] == d);
    assert(diagnostics(text)[pre.len() - 1] == d);
}


/// Whether `part` occurs in `whole`.
pub open spec fn occurs_in(part: Seq<char>, whole: Seq<char>) -> bool {
    exists|o: int| 0 <= o && o + part.len() <= whole.len() && #[trigger] whole.subrange(o, o + part.len()) == part
}

/// Every diagnostic occurs, rendered, in the report.
proof fn lemma_report_contains(errs: Seq<Diag>, file: Seq<char>, k: int)
    requires
        0 <= k < errs.len(),
    ensures
        occurs_in(diag_text(errs[k], file), report(errs, file)),
    decreases errs.len(),
{
    let d = diag_text(errs[k], file);
    let r = report(errs, file);
    if errs.len() == 1 {
        let o: int = 0;
        assert(r.subrange(o, o + d.len()) =~= d);
        assert(0 <= o && o + d.len() <= r.len() && r.subrange(o, o + d.len()) == d);
    } else if k == errs.len() - 1 {
        let front = report(errs.drop_last(), file) + "\n"@;
        assert(r == front + d);
        let o: int = front.len() as int;
        assert(r.subrange(o, o + d.len()) =~= d);
        assert(0 <= o && o + d.len() <= r.len() && r.subrange(o, o + d.len()) == d);
    } else {
        lemma_report_contains(errs.drop_last(), file, k);
        assert(errs.drop_last()[k] == errs[k]);
        let prev = report(errs.drop_last(), file);
        let o = choose|o: int| 0 <= o && o + d.len() <= prev.len() && #[trigger] prev.subrange(o, o + d.len()) == d;
        assert(r == prev + ("\n"@ + diag_text(errs.last(), file)));
        assert(r.subrange(o, o + d.len()) =~= prev.subrange(o, o + d.len()));
        assert(0 <= o && o + d.len() <= r.len() && r.subrange(o, o + d.len()) == d);
    }
}

/// An instruction that names a label no line defines fails the assembly,
/// and the error text quotes the name.
pub proof fn lemma_unresolved_symbol_reported(text: Seq<char>, file: Seq<char>, j: int, name: Seq<char>)
    requires
        0 <= j < pass1(lines_of(text)).instrs.len(),
        pass1(lines_of(text)).instrs[j].symbol() == Some(name),
        find_label(pass1(lines_of(text)).labels, name) is None,
    ensures
        assemble(text, file) is Err,
        occurs_in("Could not resolve symbol \""@ + name + "\""@, assemble(text, file)->Err_0),
        occurs_in(name, assemble(text, file)->Err_0),
{
    lemma_unresolved_symbol(text, file, j, name);
    let errs = diagnostics(text);
    let msg = "Could not resolve symbol \""@ + name + "\""@;
    let dg = file_diag(msg);
    let k = choose|k: int| 0 <= k < errs.len() && errs[k] == dg;
    lemma_report_contains(errs, file, k);
    let d = diag_text(dg, file);
    let r = report(errs, file);
    let o = choose|o: int| 0 <= o && o + d.len() <= r.len() && #[trigger] r.subrange(o, o + d.len()) == d;
    let head = file + ":"@ + dec_text(0) + ":"@ + dec_text(0) + ": error: "@;
    assert(d == head + msg + ("\n"@ + Seq::<char>::empty() + "\n"@ + repeat_char(' ', 0) + "^"@
        + repeat_char('~', 0)));
    let m0 = o + head.len();
    assert(r.subrange(m0, m0 + msg.len()) =~= msg) by {
        assert(r.subrange(o, o + d.len()) == d);
        assert forall|i: int| 0 <= i < msg.len() implies r.subrange(m0, m0 + msg.len())[i] == msg[i] by {
            assert(r.subrange(o, o + d.len())[head.len() + i] == d[head.len() + i]);
        }
    }
    let pre = "Could not resolve symbol \""@;
    let n0 = m0 + pre.len();
    assert(r.subrange(n0, n0 + name.len()) =~= name) by {
        assert forall|i: int| 0 <= i < name.len() implies r.subrange(n0, n0 + name.len())[i] == name[i] by {
            assert(r.subrange(m0, m0 + msg.len())[pre.len() + i] == msg[pre.len() + i]);
        }
    }
}


/// `k` times `ADD I, VE` with `VE` at 0xFF adds `0xFF * k` to `I`.
proof fn lemma_run_adds(m: Machine, k: nat, rnd: u8)
    requires
        m.wf(),
        m.v[14] == 0xFF,
        m.i + 0xFF * k <= 0xFFFF,
    ensures
        run(m, Seq::new(k, |j: int| InstrView::Reg(RegOp::AddI, 14)), rnd) == Ok::<Machine, crate::system::Fault>(
            Machine { i: (m.i + 0xFF * k) as u16, ..m },
        ),
    decreases k,
{
    let s = Seq::new(k, |j: int| InstrView::Reg(RegOp::AddI, 14));
    if k > 0 {
        assert(s.drop_last() =~= Seq::new((k - 1) as nat, |j: int| InstrView::Reg(RegOp::AddI, 14)));
        lemma_run_adds(m, (k - 1) as nat, rnd);
    } else {
        assert(m == Machine { i: (m.i + 0xFF * k) as u16, ..m });
    }
}

/// The instructions that `LD I, addr` becomes for an address above 0xFFF
/// load `addr` into `I`; besides `I`, only the scratch register `VE`
/// changes.
pub proof fn lemma_ext_load_sets_i(m: Machine, addr: u16, rnd: u8)
    requires
        m.wf(),
        addr > 0xFFF,
    ensures
        run(m, ext_load_spec(addr), rnd) is Ok,
        run(m, ext_load_spec(addr), rnd)->Ok_0 == (Machine {
            i: addr,
            v: run(m, ext_load_spec(addr), rnd)->Ok_0.v,
            ..m
        }),
        run(m, ext_load_spec(addr), rnd)->Ok_0.v == m.v.update(
            14,
            run(m, ext_load_spec(addr), rnd)->Ok_0.v[14],
        ),
{
    let rest = addr - 0xFFF;
    let adds = rest / 0xFF;
    let rem = rest % 0xFF;
    assert(rest == 0xFF * adds + rem && 0 <= rem < 0xFF && adds >= 0) by (nonlinear_arith)
        requires
            rest == addr - 0xFFF,
            adds == rest / 0xFF,
            rem == rest % 0xFF,
            0 < rest,
    ;
    let a = seq![InstrView::Addr(AddrOp::LdI, Target::Address(0xFFF))];
    let b = if adds != 0 {
        seq![InstrView::Byte(ByteOp::Ld, 14, 0xFF)] + Seq::new(
            adds as nat,
            |k: int| InstrView::Reg(RegOp::AddI, 14),
        )
    } else {
        Seq::empty()
    };
    let c = if rem != 0 {
        seq![InstrView::Byte(ByteOp::Ld, 14, rem as u8), InstrView::Reg(RegOp::AddI, 14)]
    } else {
        Seq::empty()
    };
    assert(ext_load_spec(addr) == a + b + c);
    lemma_run_concat(m, a + b, c, rnd);
    lemma_run_concat(m, a, b, rnd);
    assert(a.drop_last() =~= Seq::<InstrView>::empty());
    assert(run(m, a.drop_last(), rnd) == Ok::<Machine, crate::system::Fault>(m));
    let m1 = Machine { i: 0xFFF, ..m };
    assert(run(m, a, rnd) == Ok::<Machine, crate::system::Fault>(m1));
    let m2 = if adds != 0 {
        let l = seq![InstrView::Byte(ByteOp::Ld, 14, 0xFF)];
        let adds_seq = Seq::new(adds as nat, |k: int| InstrView::Reg(RegOp::AddI, 14));
        lemma_run_concat(m1, l, adds_seq, rnd);
        assert(l.drop_last() =~= Seq::<InstrView>::empty());
        assert(run(m1, l.drop_last(), rnd) == Ok::<Machine, crate::system::Fault>(m1));
        let ml = m1.with_v(14, 0xFF);
        assert(run(m1, l, rnd) == Ok::<Machine, crate::system::Fault>(ml));
        lemma_run_adds(ml, adds as nat, rnd);
        Machine { i: (0xFFF + 0xFF * adds) as u16, ..ml }
    } else {
        assert(run(m1, b, rnd) == Ok::<Machine, crate::system::Fault>(m1));
        m1
    };
    assert(run(m1, b, rnd) == Ok::<Machine, crate::system::Fault>(m2));
    assert(m2.i == 0xFFF + 0xFF * adds);
    let m3 = if rem != 0 {
        assert(c.drop_last() =~= seq![InstrView::Byte(ByteOp::Ld, 14, rem as u8)]);
        assert(c.drop_last().drop_last() =~= Seq::<InstrView>::empty());
        assert(run(m2, c.drop_last().drop_last(), rnd) == Ok::<Machine, crate::system::Fault>(m2));
        let mr = m2.with_v(14, rem as u8);
        assert(run(m2, c.drop_last(), rnd) == Ok::<Machine, crate::system::Fault>(mr));
        Machine { i: (m2.i + rem) as u16, ..mr }
    } else {
        assert(run(m2, c, rnd) == Ok::<Machine, crate::system::Fault>(m2));
        m2
    };
    assert(run(m2, c, rnd) == Ok::<Machine, crate::system::Fault>(m3));
    assert(run(m, ext_load_spec(addr), rnd) == Ok::<Machine, crate::system::Fault>(m3));
    assert(m3.v.len() == 16);
    assert(m3.v =~= m.v.update(14, m3.v[14]));
}


/// The encodings of what `LD I, addr` becomes for an address above 0xFFF:
/// `0xAFFF`, then `0x6EFF` and `(addr - 0xFFF) / 0xFF` times `0xFE1E` when
/// that count is not 0, then `0x6E00 + rem` and `0xFE1E` when the remainder
/// `rem = (addr - 0xFFF) % 0xFF` is not 0.
pub open spec fn ext_load_opcodes(addr: u16) -> Seq<int> {
    let rest = addr - 0xFFF;
    let adds = rest / 0xFF;
    let rem = rest % 0xFF;
    seq![0xAFFFint] + (if adds != 0 {
        seq![0x6EFFint] + Seq::new(adds as nat, |k: int| 0xFE1Eint)
    } else {
        Seq::empty()
    }) + (if rem != 0 {
        seq![0x6E00 + rem, 0xFE1Eint]
    } else {
        Seq::empty()
    })
}

/// An operand pair `I, addr` of `LD`, with `addr` a hexadecimal address
/// above 0xFFF, emits the extended load, whose encodings are
/// [`ext_load_opcodes`].
pub proof fn lemma_ld_i_extended(m: Tok, args: Seq<Tok>)
    requires
        args.len() == 2,
        args[0].text == "I"@,
        hex_spec(args[1]) is Ok,
        hex_spec(args[1])->Ok_0 > 0xFFF,
    ensures
        instr_spec(m, "LD"@, args) == LineOutcome::Code(ext_load_spec(hex_spec(args[1])->Ok_0)),
        ext_load_spec(hex_spec(args[1])->Ok_0).map_values(|i: InstrView| i.encode())
            == ext_load_opcodes(hex_spec(args[1])->Ok_0),
{
    reveal_strlit("I");
    reveal_strlit("LD");
    reveal_strlit("JP");
    reveal_strlit("CLS");
    reveal_strlit("RET");
    reveal_strlit("BRK");
    reveal_strlit(".WORD");
    reveal_strlit("SYS");
    reveal_strlit("CALL");
    reveal_strlit("SHR");
    reveal_strlit("SHL");
    reveal_strlit("SKP");
    reveal_strlit("SKNP");
    reveal_strlit("RND");
    reveal_strlit("SE");
    reveal_strlit("SNE");
    reveal_strlit("ADD");
    assert(vx_spec(args[0]) is Err);
    assert(ld_spec(args) == LineOutcome::Code(ext_load_spec(hex_spec(args[1])->Ok_0)));
    assert("LD"@ =~= seq!['L', 'D']);
    assert("LD"@ != "JP"@) by {
        assert("LD"@.len() != "JP"@.len() || "LD"@[0] != "JP"@[0] || "LD"@[1] != "JP"@[1]);
    }
    assert("LD"@ != "CLS"@) by {
        assert("LD"@.len() != "CLS"@.len() || "LD"@[0] != "CLS"@[0] || "LD"@[1] != "CLS"@[1]);
    }
    assert("LD"@ != "RET"@) by {
        assert("LD"@.len() != "RET"@.len() || "LD"@[0] != "RET"@[0] || "LD"@[1] != "RET"@[1]);
    }
    assert("LD"@ != "BRK"@) by {
        assert("LD"@.len() != "BRK"@.len() || "LD"@[0] != "BRK"@[0] || "LD"@[1] != "BRK"@[1]);
    }
    assert("LD"@ != ".WORD"@) by {
        assert("LD"@.len() != ".WORD"@.len() || "LD"@[0] != ".WORD"@[0] || "LD"@[1] != ".WORD"@[1]);
    }
    assert("LD"@ != "SYS"@) by {
        assert("LD"@.len() != "SYS"@.len() || "LD"@[0] != "SYS"@[0] || "LD"@[1] != "SYS"@[1]);
    }
    assert("LD"@ != "CALL"@) by {
        assert("LD"@.len() != "CALL"@.len() || "LD"@[0] != "CALL"@[0] || "LD"@[1] != "CALL"@[1]);
    }
    assert("LD"@ != "SHR"@) by {
        assert("LD"@.len() != "SHR"@.len() || "LD"@[0] != "SHR"@[0] || "LD"@[1] != "SHR"@[1]);
    }
    assert("LD"@ != "SHL"@) by {
        assert("LD"@.len() != "SHL"@.len() || "LD"@[0] != "SHL"@[0] || "LD"@[1] != "SHL"@[1]);
    }
    assert("LD"@ != "SKP"@) by {
        assert("LD"@.len() != "SKP"@.len() || "LD"@[0] != "SKP"@[0] || "LD"@[1] != "SKP"@[1]);
    }
    assert("LD"@ != "SKNP"@) by {
        assert("LD"@.len() != "SKNP"@.len() || "LD"@[0] != "SKNP"@[0] || "LD"@[1] != "SKNP"@[1]);
    }
    assert("LD"@ != "RND"@) by {
        assert("LD"@.len() != "RND"@.len() || "LD"@[0] != "RND"@[0] || "LD"@[1] != "RND"@[1]);
    }
    assert("LD"@ != "SE"@) by {
        assert("LD"@.len() != "SE"@.len() || "LD"@[0] != "SE"@[0] || "LD"@[1] != "SE"@[1]);
    }
    assert("LD"@ != "SNE"@) by {
        assert("LD"@.len() != "SNE"@.len() || "LD"@[0] != "SNE"@[0] || "LD"@[1] != "SNE"@[1]);
    }
    assert("LD"@ != "ADD"@) by {
        assert("LD"@.len() != "ADD"@.len() || "LD"@[0] != "ADD"@[0] || "LD"@[1] != "ADD"@[1]);
    }
    let addr = hex_spec(args[1])->Ok_0;
    let rest = addr - 0xFFF;
    let adds = rest / 0xFF;
    let rem = rest % 0xFF;
    assert(0 <= rem < 0xFF);
    assert(ext_load_spec(addr).map_values(|i: InstrView| i.encode()) =~= ext_load_opcodes(addr));
}

} // verus!
