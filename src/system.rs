//! Machine state and execution: registers, memory, stack, timers, screen
//! and keys, with the semantics of every instruction stated as [`step`].
use vstd::prelude::*;
use rand::Rng;
use crate::instr::{
    decode_spec, AddrOp, AddressOrSymbol, ByteOp, Instr, InstrView, NoArgOp, PairOp, RegOp,
    Target,
};
use crate::text::string_of;

verus! {

pub const SCREEN_WIDTH: usize = 64;

pub const SCREEN_HEIGHT: usize = 32;

/// Bytes of memory: 64 KiB.
pub const MEMORY_SIZE: usize = 0x10000;

/// Where a ROM is loaded and execution starts.
pub const PROGRAM_START: u16 = 0x200;

/// The deepest the call stack may grow.
pub const STACK_LIMIT: usize = 16;

/// The key index that stands for "no key": the wait was cancelled.
pub const NO_KEY: usize = 16;

/// Fetches between two decrements of the delay timer, when it runs.
pub const DELAY_TICK_PERIOD: u16 = 100;

/// Fetches between two decrements of the sound timer, when it runs.
pub const SOUND_TICK_PERIOD: u16 = 150;

/// A fatal condition of the interpreter: a ROM or programming error after
/// which execution cannot go on.
#[derive(Clone, Copy, Debug, PartialEq, Eq, Structural)]
pub enum Fault {
    /// An opcode that no instruction has, with the address it was fetched
    /// from.
    UnknownOpcode(u16, u16),
    /// The break opcode `0x0FFF`, with the address it was fetched from.
    Break(u16),
    /// The program counter does not leave room for a whole opcode.
    PcOutOfBounds(u16),
    /// `CALL` with a full stack.
    StackOverflow,
    /// `RET` with an empty stack.
    StackUnderflow,
    /// An access of the given length at `I` would leave memory.
    MemoryOutOfBounds(u16, u8),
    /// A key index of 16 or more.
    KeyOutOfRange(u8),
    /// An address instruction whose label was never resolved.
    UnresolvedSymbol,
    /// The `.word` pseudo instruction has no execution.
    WordExecuted,
}

/// An opcode that does not decode, with the address it was fetched from.
#[derive(Clone, Copy, Debug, PartialEq, Eq, Structural)]
pub struct DecodeError {
    pub opcode: u16,
    pub pc: u16,
}

/// The whole machine state.
pub struct Chip8System {
    pub pc: u16,
    pub memory: Vec<u8>,
    pub screen: Vec<bool>,
    pub keys: Vec<bool>,
    /// The key that the last wait produced, or [`NO_KEY`].
    pub pressed_key: usize,
    pub v_regs: Vec<u8>,
    pub i_reg: u16,
    pub stack: Vec<u16>,
    pub delay_timer: u8,
    pub sound_timer: u8,
    /// Fetches left before the delay timer is next decremented.
    pub delay_countdown: u16,
    /// Fetches left before the sound timer is next decremented.
    pub sound_countdown: u16,
    /// What `delay_countdown` starts again from.
    pub delay_period: u16,
    /// What `sound_countdown` starts again from.
    pub sound_period: u16,
}

/// The mathematical value of a [`Chip8System`].
pub struct Machine {
    pub pc: u16,
    pub memory: Seq<u8>,
    pub screen: Seq<bool>,
    pub keys: Seq<bool>,
    pub pressed_key: usize,
    pub v: Seq<u8>,
    pub i: u16,
    pub stack: Seq<u16>,
    pub delay_timer: u8,
    pub sound_timer: u8,
    pub delay_countdown: u16,
    pub sound_countdown: u16,
    pub delay_period: u16,
    pub sound_period: u16,
}

impl View for Chip8System {
    type V = Machine;

    open spec fn view(&self) -> Machine {
        Machine {
            pc: self.pc,
            memory: self.memory@,
            screen: self.screen@,
            keys: self.keys@,
            pressed_key: self.pressed_key,
            v: self.v_regs@,
            i: self.i_reg,
            stack: self.stack@,
            delay_timer: self.delay_timer,
            sound_timer: self.sound_timer,
            delay_countdown: self.delay_countdown,
            sound_countdown: self.sound_countdown,
            delay_period: self.delay_period,
            sound_period: self.sound_period,
        }
    }
}

impl Machine {
    /// Sizes of memory, screen, keys and registers, and the stack bound.
    pub open spec fn wf(self) -> bool {
        &&& self.memory.len() == MEMORY_SIZE
        &&& self.screen.len() == SCREEN_WIDTH * SCREEN_HEIGHT
        &&& self.keys.len() == 16
        &&& self.v.len() == 16
        &&& self.stack.len() <= STACK_LIMIT
    }

    pub open spec fn with_v(self, x: int, val: u8) -> Machine {
        Machine { v: self.v.update(x, val), ..self }
    }

    pub open spec fn with_pc(self, pc: u16) -> Machine {
        Machine { pc, ..self }
    }

    /// Skips the next instruction when `c` holds.
    pub open spec fn skip_if(self, c: bool) -> Machine {
        if c {
            self.with_pc(self.pc.wrapping_add(2))
        } else {
            self
        }
    }

    /// An access of `len` bytes at `I` stays within memory.
    pub open spec fn i_in_bounds(self, len: int) -> bool {
        self.i + len <= MEMORY_SIZE
    }
}

/// Whether bit `c` of a sprite row is set, counting from the most
/// significant bit (the leftmost pixel).
pub open spec fn sprite_bit(row: u8, c: int) -> bool {
    row & (0x80u8 >> (c as u8)) != 0
}

/// The row of the sprite that covers screen cell `p` when the sprite's top
/// row lands on row `y0`, wrapping at the bottom edge.
pub open spec fn row_off(p: int, y0: int) -> int {
    (p / 64 - y0 % 32 + 32) % 32
}

/// The column of the sprite that covers screen cell `p` when the sprite's
/// left column lands on column `x0`, wrapping at the right edge.
pub open spec fn col_off(p: int, x0: int) -> int {
    (p % 64 - x0 % 64 + 64) % 64
}

/// The screen cell where sprite row `r`, column `c` lands.
pub open spec fn pixel_index(x0: int, y0: int, r: int, c: int) -> int {
    ((y0 + r) % 32) * 64 + (x0 + c) % 64
}

/// Whether the `n`-row sprite at `addr`, drawn at (`x0`, `y0`), sets screen
/// cell `p` with one of its rows before `r`, or with row `r` before column
/// `c`.
pub open spec fn hit_before(
    mem: Seq<u8>,
    addr: int,
    n: int,
    x0: int,
    y0: int,
    p: int,
    r: int,
    c: int,
) -> bool {
    let rr = row_off(p, y0);
    let cc = col_off(p, x0);
    &&& rr < n
    &&& cc < 8
    &&& sprite_bit(mem[addr + rr], cc)
    &&& (rr < r || (rr == r && cc < c))
}

/// Whether the `n`-row sprite at `addr`, drawn at (`x0`, `y0`), sets screen
/// cell `p`.
pub open spec fn sprite_hit(mem: Seq<u8>, addr: int, n: int, x0: int, y0: int, p: int) -> bool {
    hit_before(mem, addr, n, x0, y0, p, n, 0)
}

/// `DRW Vx, Vy, n` once `I` is known to be in bounds: the sprite is XOR-ed
/// onto the screen at (`Vx`, `Vy`) as they are when the instruction starts,
/// and `VF` becomes 1 exactly when a lit cell went dark, else 0.
pub open spec fn draw_spec(m: Machine, x: u8, y: u8, n: u8) -> Machine {
    let x0 = m.v[x as int] as int;
    let y0 = m.v[y as int] as int;
    let screen = Seq::new(
        m.screen.len(),
        |p: int| m.screen[p] != sprite_hit(m.memory, m.i as int, n as int, x0, y0, p),
    );
    let collided = exists|p: int|
        0 <= p < m.screen.len() && #[trigger] m.screen[p] && sprite_hit(
            m.memory,
            m.i as int,
            n as int,
            x0,
            y0,
            p,
        );
    Machine { screen, ..m.with_v(15, if collided { 1 } else { 0 }) }
}

/// The effect of an address instruction.
pub open spec fn step_addr(m: Machine, op: AddrOp, t: Target) -> Result<Machine, Fault> {
    match t {
        Target::Symbol(_) => Err(Fault::UnresolvedSymbol),
        Target::Address(a) => match op {
            AddrOp::Sys => Ok(m),
            AddrOp::Jp => Ok(m.with_pc(a)),
            AddrOp::Call => if m.stack.len() >= STACK_LIMIT {
                Err(Fault::StackOverflow)
            } else {
                Ok(Machine { stack: m.stack.push(m.pc), pc: a, ..m })
            },
            AddrOp::LdI => Ok(Machine { i: a, ..m }),
            AddrOp::JpV0 => Ok(m.with_pc((a + m.v[0]) as u16)),
        },
    }
}

/// The effect of an instruction on a register and a byte; `rnd` is the
/// byte drawn for `RND`.
pub open spec fn step_byte(m: Machine, op: ByteOp, x: u8, kk: u8, rnd: u8) -> Machine {
    let vx = m.v[x as int];
    match op {
        ByteOp::Se => m.skip_if(vx == kk),
        ByteOp::Sne => m.skip_if(vx != kk),
        ByteOp::Ld => m.with_v(x as int, kk),
        ByteOp::Add => m.with_v(x as int, vx.wrapping_add(kk)),
        ByteOp::Rnd => m.with_v(x as int, kk & rnd),
    }
}

/// The effect of an instruction on two registers. Flags land in `VF` after
/// the result, except for the shifts, which set `VF` first.
pub open spec fn step_pair(m: Machine, op: PairOp, x: u8, y: u8) -> Machine {
    let vx = m.v[x as int];
    let vy = m.v[y as int];
    match op {
        PairOp::Se => m.skip_if(vx == vy),
        PairOp::Sne => m.skip_if(vx != vy),
        PairOp::Ld => m.with_v(x as int, vy),
        PairOp::Or => m.with_v(x as int, vx | vy),
        PairOp::And => m.with_v(x as int, vx & vy),
        PairOp::Xor => m.with_v(x as int, vx ^ vy),
        PairOp::Add => m.with_v(x as int, vx.wrapping_add(vy)).with_v(
            15,
            if vx + vy > 0xFF {
                1
            } else {
                0
            },
        ),
        PairOp::Sub => m.with_v(x as int, vx.wrapping_sub(vy)).with_v(
            15,
            if vx > vy {
                1
            } else {
                0
            },
        ),
        PairOp::Subn => m.with_v(x as int, vy.wrapping_sub(vx)).with_v(
            15,
            if vy > vx {
                1
            } else {
                0
            },
        ),
        PairOp::Shr => {
            let m1 = m.with_v(15, vx & 1);
            m1.with_v(x as int, m1.v[x as int] >> 1u8)
        },
        PairOp::Shl => {
            let m1 = m.with_v(15, vx >> 7u8);
            m1.with_v(x as int, m1.v[x as int] << 1u8)
        },
    }
}

/// The effect of an instruction on one register.
pub open spec fn step_reg(m: Machine, op: RegOp, x: u8) -> Result<Machine, Fault> {
    let vx = m.v[x as int];
    match op {
        RegOp::Skp => if vx >= 16 {
            Err(Fault::KeyOutOfRange(vx))
        } else {
            Ok(m.skip_if(m.keys[vx as int]))
        },
        RegOp::Sknp => if vx >= 16 {
            Err(Fault::KeyOutOfRange(vx))
        } else {
            Ok(m.skip_if(!m.keys[vx as int]))
        },
        RegOp::GetDelay => Ok(m.with_v(x as int, m.delay_timer)),
        RegOp::WaitKey => Ok(m.with_v(x as int, (m.pressed_key % 256) as u8)),
        RegOp::SetDelay => Ok(Machine { delay_timer: vx, ..m }),
        RegOp::SetSound => Ok(Machine { sound_timer: vx, ..m }),
        RegOp::AddI => Ok(Machine { i: m.i.wrapping_add(vx as u16), ..m }),
        RegOp::Digit => Ok(Machine { i: (vx * 5) as u16, ..m }),
        RegOp::Bcd => if !m.i_in_bounds(3) {
            Err(Fault::MemoryOutOfBounds(m.i, 3))
        } else {
            Ok(
                Machine {
                    memory: m.memory.update(m.i as int, vx / 100).update(
                        m.i + 1,
                        (vx / 10) % 10,
                    ).update(m.i + 2, vx % 10),
                    ..m
                },
            )
        },
        RegOp::Store => if !m.i_in_bounds(x + 1) {
            Err(Fault::MemoryOutOfBounds(m.i, (x + 1) as u8))
        } else {
            Ok(
                Machine {
                    memory: Seq::new(
                        m.memory.len(),
                        |k: int|
                            if m.i <= k <= m.i + x {
                                m.v[k - m.i]
                            } else {
                                m.memory[k]
                            },
                    ),
                    ..m
                },
            )
        },
        RegOp::Load => if !m.i_in_bounds(x + 1) {
            Err(Fault::MemoryOutOfBounds(m.i, (x + 1) as u8))
        } else {
            Ok(
                Machine {
                    v: Seq::new(
                        m.v.len(),
                        |k: int|
                            if k <= x {
                                m.memory[m.i + k]
                            } else {
                                m.v[k]
                            },
                    ),
                    ..m
                },
            )
        },
    }
}

/// The effect of executing `instr` on `m`, where `rnd` is the byte that
/// `RND` draws; `Err` for a fatal condition.
pub open spec fn step(m: Machine, instr: InstrView, rnd: u8) -> Result<Machine, Fault> {
    match instr {
        InstrView::Plain(NoArgOp::Cls) => Ok(
            Machine { screen: Seq::new(m.screen.len(), |p: int| false), ..m },
        ),
        InstrView::Plain(NoArgOp::Ret) => if m.stack.len() == 0 {
            Err(Fault::StackUnderflow)
        } else {
            Ok(Machine { pc: m.stack.last(), stack: m.stack.drop_last(), ..m })
        },
        InstrView::Addr(op, t) => step_addr(m, op, t),
        InstrView::Byte(op, x, kk) => Ok(step_byte(m, op, x, kk, rnd)),
        InstrView::Pair(op, x, y) => Ok(step_pair(m, op, x, y)),
        InstrView::Reg(op, x) => step_reg(m, op, x),
        InstrView::Draw(x, y, n) => if !m.i_in_bounds(n as int) {
            Err(Fault::MemoryOutOfBounds(m.i, n))
        } else {
            Ok(draw_spec(m, x, y, n))
        },
        InstrView::Word(_) => Err(Fault::WordExecuted),
        InstrView::Undef(_, _) => Ok(m),
    }
}


/// The glyphs of the hexadecimal digits, five rows each, loaded at address 0.
pub open spec fn font_data() -> Seq<u8> {
    seq![
        0xF0u8, 0x90, 0x90, 0x90, 0xF0,
        0x20, 0x60, 0x20, 0x20, 0x70,
        0xF0, 0x10, 0xF0, 0x80, 0xF0,
        0xF0, 0x10, 0xF0, 0x10, 0xF0,
        0x90, 0x90, 0xF0, 0x10, 0x10,
        0xF0, 0x80, 0xF0, 0x10, 0xF0,
        0xF0, 0x80, 0xF0, 0x90, 0xF0,
        0xF0, 0x10, 0x20, 0x40, 0x40,
        0xF0, 0x90, 0xF0, 0x90, 0xF0,
        0xF0, 0x90, 0xF0, 0x10, 0xF0,
        0xF0, 0x90, 0xF0, 0x90, 0x90,
        0xE0, 0x90, 0xE0, 0x90, 0xE0,
        0xF0, 0x80, 0x80, 0x80, 0xF0,
        0xE0, 0x90, 0x90, 0x90, 0xE0,
        0xF0, 0x80, 0xF0, 0x80, 0xF0,
        0xF0, 0x80, 0xF0, 0x80, 0x80,
    ]
}

/// The screen as text: one line of 64 cells per row, `@` lit and `-` dark,
/// rows joined by newlines.
pub open spec fn screen_text(screen: Seq<bool>) -> Seq<char> {
    Seq::new(
        (SCREEN_HEIGHT * (SCREEN_WIDTH + 1) - 1) as nat,
        |k: int|
            if k % 65 == 64 {
                '\n'
            } else if screen[(k / 65) * 64 + k % 65] {
                '@'
            } else {
                '-'
            },
    )
}

/// The memory of a fresh machine holding `rom`: the font at address 0 and
/// the ROM at [`PROGRAM_START`], zero elsewhere.
pub open spec fn loaded_memory(rom: Seq<u8>) -> Seq<u8> {
    Seq::new(
        MEMORY_SIZE as nat,
        |k: int|
            if k < 80 {
                font_data()[k]
            } else if 0x200 <= k < 0x200 + rom.len() {
                rom[k - 0x200]
            } else {
                0
            },
    )
}

/// The big-endian bytes of the encodings of `instrs`, two per instruction.
pub open spec fn rom_bytes(instrs: Seq<InstrView>) -> Seq<u8> {
    Seq::new(
        2 * instrs.len(),
        |k: int|
            if k % 2 == 0 {
                (instrs[k / 2].encode() / 0x100) as u8
            } else {
                (instrs[k / 2].encode() % 0x100) as u8
            },
    )
}

fn zeros(n: usize) -> (r: Vec<u8>)
    ensures
        r@ == Seq::new(n as nat, |k: int| 0u8),
{
    let mut r: Vec<u8> = Vec::new();
    let mut k: usize = 0;
    while k < n
        invariant
            k <= n,
            r@ == Seq::new(k as nat, |j: int| 0u8),
        decreases n - k,
    {
        r.push(0);
        k = k + 1;
        assert(r@ =~= Seq::new(k as nat, |j: int| 0u8));
    }
    r
}

fn falses(n: usize) -> (r: Vec<bool>)
    ensures
        r@ == Seq::new(n as nat, |k: int| false),
{
    let mut r: Vec<bool> = Vec::new();
    let mut k: usize = 0;
    while k < n
        invariant
            k <= n,
            r@ == Seq::new(k as nat, |j: int| false),
        decreases n - k,
    {
        r.push(false);
        k = k + 1;
        assert(r@ =~= Seq::new(k as nat, |j: int| false));
    }
    r
}

/// The encodings of `instrs`, each as two bytes, high byte first.
pub fn instrs_to_rom(instrs: &Vec<Instr>) -> (r: Vec<u8>)
    requires
        forall|k: int| 0 <= k < instrs.len() ==> (#[trigger] instrs@[k]@).wf() && instrs@[k]@.resolved(),
        2 * instrs.len() <= usize::MAX,
    ensures
        r@ == rom_bytes(instrs@.map_values(|i: Instr| i@)),
{
    let ghost views = instrs@.map_values(|i: Instr| i@);
    let mut rom: Vec<u8> = Vec::new();
    let mut k: usize = 0;
    while k < instrs.len()
        invariant
            k <= instrs.len(),
            2 * instrs.len() <= usize::MAX,
            views == instrs@.map_values(|i: Instr| i@),
            forall|j: int| 0 <= j < instrs.len() ==> (#[trigger] instrs@[j]@).wf() && instrs@[j]@.resolved(),
            rom@ == rom_bytes(views.take(k as int)),
        decreases instrs.len() - k,
    {
        let opc = instrs[k].get_opcode();
        rom.push((opc / 0x100) as u8);
        rom.push((opc % 0x100) as u8);
        k = k + 1;
        assert(rom@ =~= rom_bytes(views.take(k as int)));
    }
    assert(views.take(instrs.len() as int) == views);
    rom
}

/// A fresh machine with `rom` loaded.
pub fn make_system(rom: &[u8]) -> (r: Chip8System)
    requires
        rom@.len() <= MEMORY_SIZE - PROGRAM_START,
    ensures
        r@ == Chip8System::new_spec().with_memory(loaded_memory(rom@)),
        r@.wf(),
{
    let mut c = Chip8System::new();
    c.init_memory(rom);
    c
}

impl Machine {
    pub open spec fn with_memory(self, memory: Seq<u8>) -> Machine {
        Machine { memory, ..self }
    }
}

impl Chip8System {
    /// The state of a fresh machine.
    pub open spec fn new_spec() -> Machine {
        Machine {
            pc: PROGRAM_START,
            memory: Seq::new(MEMORY_SIZE as nat, |k: int| 0u8),
            screen: Seq::new((SCREEN_WIDTH * SCREEN_HEIGHT) as nat, |k: int| false),
            keys: Seq::new(16, |k: int| false),
            pressed_key: 0,
            v: Seq::new(16, |k: int| 0u8),
            i: 0,
            stack: Seq::empty(),
            delay_timer: 0,
            sound_timer: 0,
            delay_countdown: DELAY_TICK_PERIOD,
            sound_countdown: SOUND_TICK_PERIOD,
            delay_period: DELAY_TICK_PERIOD,
            sound_period: SOUND_TICK_PERIOD,
        }
    }

    /// A machine with zeroed memory and registers, a dark screen, no key
    /// down, an empty stack, and the program counter at [`PROGRAM_START`].
    pub fn new() -> (r: Chip8System)
        ensures
            r@ == Chip8System::new_spec(),
            r@.wf(),
    {
        Chip8System {
            pc: PROGRAM_START,
            memory: zeros(MEMORY_SIZE),
            screen: falses(SCREEN_WIDTH * SCREEN_HEIGHT),
            keys: falses(16),
            pressed_key: 0,
            v_regs: zeros(16),
            i_reg: 0,
            stack: Vec::new(),
            delay_timer: 0,
            sound_timer: 0,
            delay_countdown: DELAY_TICK_PERIOD,
            sound_countdown: SOUND_TICK_PERIOD,
            delay_period: DELAY_TICK_PERIOD,
            sound_period: SOUND_TICK_PERIOD,
        }
    }

    /// Puts the program counter back at [`PROGRAM_START`] and clears the
    /// registers, the stack and the timers; memory, screen and keys stay.
    pub fn reset_regs(&mut self)
        requires
            old(self)@.wf(),
        ensures
            final(self)@ == (Machine {
                pc: PROGRAM_START,
                v: Seq::new(16, |k: int| 0u8),
                i: 0,
                stack: Seq::empty(),
                delay_timer: 0,
                sound_timer: 0,
                ..old(self)@
            }),
            final(self)@.wf(),
    {
        self.pc = PROGRAM_START;
        self.v_regs = zeros(16);
        self.i_reg = 0;
        self.stack = Vec::new();
        self.delay_timer = 0;
        self.sound_timer = 0;
    }

    /// `I` as a memory index, when an access of `length` bytes there stays
    /// within memory.
    pub fn bounds_check_i(&self, length: u8) -> (r: Result<usize, Fault>)
        requires
            self@.wf(),
        ensures
            self@.i_in_bounds(length as int) ==> r == Ok::<usize, Fault>(self.i_reg as usize),
            !self@.i_in_bounds(length as int) ==> r == Err::<usize, Fault>(
                Fault::MemoryOutOfBounds(self.i_reg, length),
            ),
    {
        let end = (self.i_reg as usize) + (length as usize);
        if end > self.memory.len() {
            Err(Fault::MemoryOutOfBounds(self.i_reg, length))
        } else {
            Ok(self.i_reg as usize)
        }
    }

    /// The screen as 32 lines of 64 cells, `@` lit and `-` dark.
    pub fn screen_to_str(&self) -> (r: String)
        requires
            self@.wf(),
        ensures
            r@ == screen_text(self.screen@),
    {
        let mut out: Vec<char> = Vec::new();
        let mut k: usize = 0;
        let total: usize = SCREEN_HEIGHT * (SCREEN_WIDTH + 1) - 1;
        while k < total
            invariant
                k <= total,
                total == SCREEN_HEIGHT * (SCREEN_WIDTH + 1) - 1,
                self@.wf(),
                out@ == screen_text(self.screen@).take(k as int),
            decreases total - k,
        {
            let c = if k % 65 == 64 {
                '\n'
            } else if self.screen[(k / 65) * 64 + k % 65] {
                '@'
            } else {
                '-'
            };
            out.push(c);
            k = k + 1;
            assert(out@ =~= screen_text(self.screen@).take(k as int));
        }
        assert(screen_text(self.screen@).take(total as int) =~= screen_text(self.screen@));
        string_of(&out)
    }

    /// Takes a snapshot of the 16 keys, in device order.
    pub fn update_keys(&mut self, key_state: [bool; 16])
        requires
            old(self)@.wf(),
        ensures
            final(self)@ == (Machine { keys: key_state@, ..old(self)@ }),
            final(self)@.wf(),
    {
        let mut k: usize = 0;
        while k < 16
            invariant
                k <= 16,
                self.keys@.len() == 16,
                self@ == (Machine { keys: self.keys@, ..old(self)@ }),
                forall|j: int| 0 <= j < k ==> self.keys@[j] == key_state@[j],
                forall|j: int| k <= j < 16 ==> self.keys@[j] == old(self).keys@[j],
            decreases 16 - k,
        {
            self.keys.set(k, key_state[k]);
            k = k + 1;
        }
        assert(self.keys@ =~= key_state@);
    }

    /// Whether key `idx` is down; a fault for an index of 16 or more.
    pub fn get_keystate(&self, idx: u8) -> (r: Result<bool, Fault>)
        requires
            self@.wf(),
        ensures
            idx < 16 ==> r == Ok::<bool, Fault>(self.keys@[idx as int]),
            idx >= 16 ==> r == Err::<bool, Fault>(Fault::KeyOutOfRange(idx)),
    {
        if idx >= 16 {
            Err(Fault::KeyOutOfRange(idx))
        } else {
            Ok(self.keys[idx as usize])
        }
    }

    fn init_memory(&mut self, rom: &[u8])
        requires
            old(self)@.wf(),
            old(self)@.memory == Seq::new(MEMORY_SIZE as nat, |k: int| 0u8),
            rom@.len() <= MEMORY_SIZE - PROGRAM_START,
        ensures
            final(self)@ == old(self)@.with_memory(loaded_memory(rom@)),
    {
        let font: [u8; 80] = [
            0xF0, 0x90, 0x90, 0x90, 0xF0,
            0x20, 0x60, 0x20, 0x20, 0x70,
            0xF0, 0x10, 0xF0, 0x80, 0xF0,
            0xF0, 0x10, 0xF0, 0x10, 0xF0,
            0x90, 0x90, 0xF0, 0x10, 0x10,
            0xF0, 0x80, 0xF0, 0x10, 0xF0,
            0xF0, 0x80, 0xF0, 0x90, 0xF0,
            0xF0, 0x10, 0x20, 0x40, 0x40,
            0xF0, 0x90, 0xF0, 0x90, 0xF0,
            0xF0, 0x90, 0xF0, 0x10, 0xF0,
            0xF0, 0x90, 0xF0, 0x90, 0x90,
            0xE0, 0x90, 0xE0, 0x90, 0xE0,
            0xF0, 0x80, 0x80, 0x80, 0xF0,
            0xE0, 0x90, 0x90, 0x90, 0xE0,
            0xF0, 0x80, 0xF0, 0x80, 0xF0,
            0xF0, 0x80, 0xF0, 0x80, 0x80,
        ];
        assert(font@ == font_data());
        let mut k: usize = 0;
        while k < 80
            invariant
                k <= 80,
                font@ == font_data(),
                self.memory@.len() == MEMORY_SIZE,
                self@ == old(self)@.with_memory(self.memory@),
                forall|j: int| 0 <= j < k ==> self.memory@[j] == font_data()[j],
                forall|j: int| k <= j < MEMORY_SIZE ==> self.memory@[j] == 0u8,
            decreases 80 - k,
        {
            self.memory.set(k, font[k]);
            k = k + 1;
        }
        let mut k: usize = 0;
        while k < rom.len()
            invariant
                k <= rom@.len() <= MEMORY_SIZE - PROGRAM_START,
                self.memory@.len() == MEMORY_SIZE,
                self@ == old(self)@.with_memory(self.memory@),
                forall|j: int| 0 <= j < 80 ==> self.memory@[j] == font_data()[j],
                forall|j: int| 0x200 <= j < 0x200 + k ==> self.memory@[j] == rom@[j - 0x200],
                forall|j: int| 80 <= j < 0x200 ==> self.memory@[j] == 0u8,
                forall|j: int| 0x200 + k <= j < MEMORY_SIZE ==> self.memory@[j] == 0u8,
            decreases rom@.len() - k,
        {
            self.memory.set(0x200 + k, rom[k]);
            k = k + 1;
        }
        assert(self.memory@ =~= loaded_memory(rom@));
    }
}


/// Relies on rand's `thread_rng().gen::<u8>()`: a byte from the thread-local
/// generator. Nothing is promised of its value.
#[verifier::external_body]
fn random_byte() -> (r: u8) {
    rand::thread_rng().gen::<u8>()
}

impl Chip8System {
    fn skip_next(&mut self)
        ensures
            final(self)@ == old(self)@.skip_if(true),
    {
        self.pc = self.pc.wrapping_add(2);
    }

    fn exec_addr(&mut self, op: AddrOp, target: &AddressOrSymbol) -> (r: Result<(), Fault>)
        requires
            old(self)@.wf(),
            InstrView::Addr(op, target@).wf(),
        ensures
            match step_addr(old(self)@, op, target@) {
                Ok(m) => r is Ok && final(self)@ == m,
                Err(e) => r == Err::<(), Fault>(e) && final(self)@ == old(self)@,
            },
    {
        let a = match target {
            AddressOrSymbol::Symbol(_) => {
                return Err(Fault::UnresolvedSymbol);
            },
            AddressOrSymbol::Address(a) => *a,
        };
        match op {
            AddrOp::Sys => {},
            AddrOp::Jp => {
                self.pc = a;
            },
            AddrOp::Call => {
                if self.stack.len() >= STACK_LIMIT {
                    return Err(Fault::StackOverflow);
                }
                self.stack.push(self.pc);
                self.pc = a;
            },
            AddrOp::LdI => {
                self.i_reg = a;
            },
            AddrOp::JpV0 => {
                self.pc = a + self.v_regs[0] as u16;
            },
        }
        Ok(())
    }

    fn exec_byte(&mut self, op: ByteOp, x: u8, kk: u8, rnd: u8)
        requires
            old(self)@.wf(),
            x < 16,
        ensures
            final(self)@ == step_byte(old(self)@, op, x, kk, rnd),
    {
        let vx = self.v_regs[x as usize];
        match op {
            ByteOp::Se => {
                if vx == kk {
                    self.skip_next();
                }
            },
            ByteOp::Sne => {
                if vx != kk {
                    self.skip_next();
                }
            },
            ByteOp::Ld => self.v_regs.set(x as usize, kk),
            ByteOp::Add => self.v_regs.set(x as usize, vx.wrapping_add(kk)),
            ByteOp::Rnd => self.v_regs.set(x as usize, kk & rnd),
        }
    }

    fn exec_pair(&mut self, op: PairOp, x: u8, y: u8)
        requires
            old(self)@.wf(),
            x < 16,
            y < 16,
        ensures
            final(self)@ == step_pair(old(self)@, op, x, y),
    {
        let vx = self.v_regs[x as usize];
        let vy = self.v_regs[y as usize];
        match op {
            PairOp::Se => {
                if vx == vy {
                    self.skip_next();
                }
            },
            PairOp::Sne => {
                if vx != vy {
                    self.skip_next();
                }
            },
            PairOp::Ld => self.v_regs.set(x as usize, vy),
            PairOp::Or => self.v_regs.set(x as usize, vx | vy),
            PairOp::And => self.v_regs.set(x as usize, vx & vy),
            PairOp::Xor => self.v_regs.set(x as usize, vx ^ vy),
            PairOp::Add => {
                self.v_regs.set(x as usize, vx.wrapping_add(vy));
                let carry: u8 = if (vx as u16) + (vy as u16) > 0xFF {
                    1
                } else {
                    0
                };
                self.v_regs.set(15, carry);
            },
            PairOp::Sub => {
                self.v_regs.set(x as usize, vx.wrapping_sub(vy));
                let no_borrow: u8 = if vx > vy {
                    1
                } else {
                    0
                };
                self.v_regs.set(15, no_borrow);
            },
            PairOp::Subn => {
                self.v_regs.set(x as usize, vy.wrapping_sub(vx));
                let no_borrow: u8 = if vy > vx {
                    1
                } else {
                    0
                };
                self.v_regs.set(15, no_borrow);
            },
            PairOp::Shr => {
                self.v_regs.set(15, vx & 1);
                let cur = self.v_regs[x as usize];
                self.v_regs.set(x as usize, cur >> 1u8);
            },
            PairOp::Shl => {
                self.v_regs.set(15, vx >> 7u8);
                let cur = self.v_regs[x as usize];
                self.v_regs.set(x as usize, cur << 1u8);
            },
        }
    }

    fn exec_reg(&mut self, op: RegOp, x: u8) -> (r: Result<(), Fault>)
        requires
            old(self)@.wf(),
            x < 16,
        ensures
            match step_reg(old(self)@, op, x) {
                Ok(m) => r is Ok && final(self)@ == m,
                Err(e) => r == Err::<(), Fault>(e) && final(self)@ == old(self)@,
            },
    {
        let vx = self.v_regs[x as usize];
        match op {
            RegOp::Skp => {
                match self.get_keystate(vx) {
                    Err(e) => {
                        return Err(e);
                    },
                    Ok(down) => {
                        if down {
                            self.skip_next();
                        }
                    },
                }
            },
            RegOp::Sknp => {
                match self.get_keystate(vx) {
                    Err(e) => {
                        return Err(e);
                    },
                    Ok(down) => {
                        if !down {
                            self.skip_next();
                        }
                    },
                }
            },
            RegOp::GetDelay => {
                let dt = self.delay_timer;
                self.v_regs.set(x as usize, dt);
            },
            RegOp::WaitKey => {
                let key = (self.pressed_key % 256) as u8;
                self.v_regs.set(x as usize, key);
            },
            RegOp::SetDelay => {
                self.delay_timer = vx;
            },
            RegOp::SetSound => {
                self.sound_timer = vx;
            },
            RegOp::AddI => {
                self.i_reg = self.i_reg.wrapping_add(vx as u16);
            },
            RegOp::Digit => {
                self.i_reg = (vx as u16) * 5;
            },
            RegOp::Bcd => {
                let addr = match self.bounds_check_i(3) {
                    Err(e) => {
                        return Err(e);
                    },
                    Ok(a) => a,
                };
                self.memory.set(addr, vx / 100);
                self.memory.set(addr + 1, (vx / 10) % 10);
                self.memory.set(addr + 2, vx % 10);
            },
            RegOp::Store => {
                let addr = match self.bounds_check_i(x + 1) {
                    Err(e) => {
                        return Err(e);
                    },
                    Ok(a) => a,
                };
                let ghost m = self@;
                let mut k: usize = 0;
                while k <= x as usize
                    invariant
                        k <= x + 1,
                        x < 16,
                        addr == m.i,
                        m.wf(),
                        m.i_in_bounds(x + 1),
                        self.memory@.len() == MEMORY_SIZE,
                        self@ == m.with_memory(self.memory@),
                        forall|j: int|
                            0 <= j < MEMORY_SIZE ==> #[trigger] self.memory@[j] == if m.i <= j
                                < m.i + k {
                                m.v[j - m.i]
                            } else {
                                m.memory[j]
                            },
                    decreases x + 1 - k,
                {
                    let val = self.v_regs[k];
                    self.memory.set(addr + k, val);
                    k = k + 1;
                }
                assert(self.memory@ =~= step_reg(m, op, x)->Ok_0.memory);
            },
            RegOp::Load => {
                let addr = match self.bounds_check_i(x + 1) {
                    Err(e) => {
                        return Err(e);
                    },
                    Ok(a) => a,
                };
                let ghost m = self@;
                let mut k: usize = 0;
                while k <= x as usize
                    invariant
                        k <= x + 1,
                        x < 16,
                        addr == m.i,
                        m.wf(),
                        m.i_in_bounds(x + 1),
                        self.v_regs@.len() == 16,
                        self@ == (Machine { v: self.v_regs@, ..m }),
                        forall|j: int|
                            0 <= j < 16 ==> #[trigger] self.v_regs@[j] == if j < k {
                                m.memory[m.i + j]
                            } else {
                                m.v[j]
                            },
                    decreases x + 1 - k,
                {
                    let val = self.memory[addr + k];
                    self.v_regs.set(k, val);
                    k = k + 1;
                }
                assert(self.v_regs@ =~= step_reg(m, op, x)->Ok_0.v);
            },
        }
        Ok(())
    }
}


/// Sprite row `r`, column `c` lands on a cell whose offsets are `r` and
/// `c`, and no other cell has those offsets.
pub proof fn lemma_pixel_offsets(x0: int, y0: int, r: int, c: int, p: int)
    requires
        0 <= x0 < 256,
        0 <= y0 < 256,
        0 <= r < 32,
        0 <= c < 64,
        0 <= p < 2048,
    ensures
        0 <= pixel_index(x0, y0, r, c) < 2048,
        row_off(pixel_index(x0, y0, r, c), y0) == r,
        col_off(pixel_index(x0, y0, r, c), x0) == c,
        row_off(p, y0) == r && col_off(p, x0) == c ==> p == pixel_index(x0, y0, r, c),
{
    let a = (y0 + r) % 32;
    let b = (x0 + c) % 64;
    let q = a * 64 + b;
    assert(q / 64 == a && q % 64 == b) by (nonlinear_arith)
        requires
            0 <= a < 32,
            0 <= b < 64,
            q == a * 64 + b,
    ;
    assert((a - y0 % 32 + 32) % 32 == r) by (nonlinear_arith)
        requires
            a == (y0 + r) % 32,
            0 <= y0,
            0 <= r < 32,
    ;
    assert((b - x0 % 64 + 64) % 64 == c) by (nonlinear_arith)
        requires
            b == (x0 + c) % 64,
            0 <= x0,
            0 <= c < 64,
    ;
    if row_off(p, y0) == r && col_off(p, x0) == c {
        let pa = p / 64;
        let pb = p % 64;
        assert(p == pa * 64 + pb && 0 <= pa < 32 && 0 <= pb < 64) by (nonlinear_arith)
            requires
                0 <= p < 2048,
                pa == p / 64,
                pb == p % 64,
        ;
        assert(pa == a) by (nonlinear_arith)
            requires
                (pa - y0 % 32 + 32) % 32 == r,
                0 <= pa < 32,
                a == (y0 + r) % 32,
                0 <= y0,
                0 <= r < 32,
        ;
        assert(pb == b) by (nonlinear_arith)
            requires
                (pb - x0 % 64 + 64) % 64 == c,
                0 <= pb < 64,
                b == (x0 + c) % 64,
                0 <= x0,
                0 <= c < 64,
        ;
    }
}

impl Chip8System {
    fn exec_draw(&mut self, x: u8, y: u8, n: u8) -> (r: Result<(), Fault>)
        requires
            old(self)@.wf(),
            x < 16,
            y < 16,
            n < 16,
        ensures
            match step(old(self)@, InstrView::Draw(x, y, n), 0) {
                Ok(m) => r is Ok && final(self)@ == m,
                Err(e) => r == Err::<(), Fault>(e) && final(self)@ == old(self)@,
            },
    {
        let addr = match self.bounds_check_i(n) {
            Err(e) => {
                return Err(e);
            },
            Ok(a) => a,
        };
        let ghost m = self@;
        let x0 = self.v_regs[x as usize] as usize;
        let y0 = self.v_regs[y as usize] as usize;
        let ghost mem = m.memory;
        let ghost old_screen = m.screen;
        let ghost m1 = self@;
        let mut hit = false;
        let mut r: usize = 0;
        while r < n as usize
            invariant
                r <= n < 16,
                m.wf(),
                m.i_in_bounds(n as int),
                addr == m.i,
                mem == m.memory,
                old_screen == m.screen,
                m1 == m,
                x0 == m1.v[x as int],
                y0 == m1.v[y as int],
                self.screen@.len() == 2048,
                self@ == (Machine { screen: self.screen@, ..m1 }),
                forall|p: int|
                    0 <= p < 2048 ==> #[trigger] self.screen@[p] == (old_screen[p] != hit_before(
                        mem,
                        addr as int,
                        n as int,
                        x0 as int,
                        y0 as int,
                        p,
                        r as int,
                        0,
                    )),
                hit == exists|p: int|
                    0 <= p < 2048 && #[trigger] old_screen[p] && hit_before(
                        mem,
                        addr as int,
                        n as int,
                        x0 as int,
                        y0 as int,
                        p,
                        r as int,
                        0,
                    ),
            decreases n - r,
        {
            let row = self.memory[addr + r];
            let mut c: usize = 0;
            while c < 8
                invariant
                    r < n < 16,
                    c <= 8,
                    m.wf(),
                    m.i_in_bounds(n as int),
                    addr == m.i,
                    mem == m.memory,
                    old_screen == m.screen,
                    row == mem[addr + r],
                    x0 < 256,
                    y0 < 256,
                    self.screen@.len() == 2048,
                    self@ == (Machine { screen: self.screen@, ..m1 }),
                    forall|p: int|
                        0 <= p < 2048 ==> #[trigger] self.screen@[p] == (old_screen[p]
                            != hit_before(
                            mem,
                            addr as int,
                            n as int,
                            x0 as int,
                            y0 as int,
                            p,
                            r as int,
                            c as int,
                        )),
                    hit == exists|p: int|
                        0 <= p < 2048 && #[trigger] old_screen[p] && hit_before(
                            mem,
                            addr as int,
                            n as int,
                            x0 as int,
                            y0 as int,
                            p,
                            r as int,
                            c as int,
                        ),
                decreases 8 - c,
            {
                let fx = (x0 + c) % 64;
                let fy = (y0 + r) % 32;
                let idx = fy * 64 + fx;
                let lit = row & (0x80u8 >> (c as u8)) != 0;
                proof {
                    lemma_pixel_offsets(x0 as int, y0 as int, r as int, c as int, 0);
                    assert forall|p: int| 0 <= p < 2048 implies hit_before(
                        mem,
                        addr as int,
                        n as int,
                        x0 as int,
                        y0 as int,
                        p,
                        r as int,
                        c + 1,
                    ) == (hit_before(
                        mem,
                        addr as int,
                        n as int,
                        x0 as int,
                        y0 as int,
                        p,
                        r as int,
                        c as int,
                    ) || (p == idx && lit)) by {
                        lemma_pixel_offsets(x0 as int, y0 as int, r as int, c as int, p);
                    }
                }
                let was = self.screen[idx];
                if lit && was {
                    hit = true;
                }
                self.screen.set(idx, was != lit);
                c = c + 1;
            }
            r = r + 1;
            assert forall|p: int| 0 <= p < 2048 implies hit_before(
                mem,
                addr as int,
                n as int,
                x0 as int,
                y0 as int,
                p,
                r as int,
                0,
            ) == hit_before(
                mem,
                addr as int,
                n as int,
                x0 as int,
                y0 as int,
                p,
                r - 1,
                8,
            ) by {}
        }
        let flag: u8 = if hit {
            1
        } else {
            0
        };
        self.v_regs.set(15, flag);
        assert(self.screen@ =~= draw_spec(m, x, y, n).screen);
        assert(self.v_regs@ =~= draw_spec(m, x, y, n).v);
        Ok(())
    }
}


/// One fetch's worth of a timer: the countdown runs down to zero, and the
/// fetch after that decrements the timer (unless it is already zero) and
/// starts the countdown again from `period`.
pub open spec fn tick(countdown: u16, period: u16, timer: u8) -> (u16, u8) {
    if countdown == 0 {
        (period, if timer != 0 { (timer - 1) as u8 } else { 0 })
    } else {
        ((countdown - 1) as u16, timer)
    }
}

/// Both timers after one fetch.
pub open spec fn tick_timers(m: Machine) -> Machine {
    let (dc, dt) = tick(m.delay_countdown, m.delay_period, m.delay_timer);
    let (sc, st) = tick(m.sound_countdown, m.sound_period, m.sound_timer);
    Machine { delay_countdown: dc, delay_timer: dt, sound_countdown: sc, sound_timer: st, ..m }
}

/// The big-endian opcode stored at `pc`.
pub open spec fn opcode_at(mem: Seq<u8>, pc: int) -> u16 {
    (mem[pc] * 0x100 + mem[pc + 1]) as u16
}

/// The break opcode, which stops the interpreter.
pub const BREAK_OPCODE: u16 = 0x0FFF;

/// The state after a fetch and what was fetched: the timers tick; then,
/// when a whole opcode lies at `pc`, the program counter moves past it and
/// the opcode is decoded.
pub open spec fn fetch_spec(m: Machine) -> (Machine, Result<InstrView, Fault>) {
    let t = tick_timers(m);
    if m.pc + 1 >= MEMORY_SIZE {
        (t, Err(Fault::PcOutOfBounds(m.pc)))
    } else {
        let op = opcode_at(m.memory, m.pc as int);
        let t2 = t.with_pc(m.pc.wrapping_add(2));
        if op == BREAK_OPCODE {
            (t2, Err(Fault::Break(m.pc)))
        } else {
            match decode_spec(op) {
                Some(i) => (t2, Ok(i)),
                None => (t2, Err(Fault::UnknownOpcode(op, m.pc))),
            }
        }
    }
}

/// `ADD Vx, Vy` sets `VF` to 1 exactly when the unsigned sum exceeds
/// 0xFF; `SUB` sets it exactly when `Vx > Vy` and `SUBN` exactly when
/// `Vy > Vx`, whatever the wrapped difference is.
pub proof fn lemma_arith_flags(m: Machine, x: u8, y: u8, rnd: u8)
    requires
        m.wf(),
        x < 16,
        y < 16,
    ensures
        step(m, InstrView::Pair(PairOp::Add, x, y), rnd) is Ok,
        step(m, InstrView::Pair(PairOp::Add, x, y), rnd)->Ok_0.v[15] == (if m.v[x as int]
            + m.v[y as int] > 0xFF {
            1u8
        } else {
            0u8
        }),
        step(m, InstrView::Pair(PairOp::Sub, x, y), rnd)->Ok_0.v[15] == (if m.v[x as int]
            > m.v[y as int] {
            1u8
        } else {
            0u8
        }),
        step(m, InstrView::Pair(PairOp::Subn, x, y), rnd)->Ok_0.v[15] == (if m.v[y as int]
            > m.v[x as int] {
            1u8
        } else {
            0u8
        }),
        x != 15 ==> step(m, InstrView::Pair(PairOp::Add, x, y), rnd)->Ok_0.v[x as int] == (
        m.v[x as int] + m.v[y as int]) % 0x100,
        x != 15 ==> step(m, InstrView::Pair(PairOp::Sub, x, y), rnd)->Ok_0.v[x as int] == (
        m.v[x as int] - m.v[y as int] + 0x100) % 0x100,
        x != 15 ==> step(m, InstrView::Pair(PairOp::Subn, x, y), rnd)->Ok_0.v[x as int] == (
        m.v[y as int] - m.v[x as int] + 0x100) % 0x100,
{
}

/// `DRW Vx, Vy, n` XORs sprite row `r`, column `c` onto the cell at
/// column `(Vx + c) mod 64` and row `(Vy + r) mod 32`, leaves every other
/// cell alone, and sets `VF` to 1 exactly when a lit cell went dark. `Vx`
/// and `Vy` are taken as they are when the instruction starts.
pub proof fn lemma_draw_wraps(m: Machine, x: u8, y: u8, n: u8, rnd: u8)
    requires
        m.wf(),
        x < 16,
        y < 16,
        n < 16,
        m.i_in_bounds(n as int),
    ensures
        step(m, InstrView::Draw(x, y, n), rnd) is Ok,
        ({
            let m2 = step(m, InstrView::Draw(x, y, n), rnd)->Ok_0;
            let x0 = m.v[x as int] as int;
            let y0 = m.v[y as int] as int;
            &&& forall|r: int, c: int|
                0 <= r < n && 0 <= c < 8 ==> m2.screen[#[trigger] pixel_index(x0, y0, r, c)] == (
                m.screen[pixel_index(x0, y0, r, c)] != sprite_bit(m.memory[m.i + r], c))
            &&& forall|p: int|
                0 <= p < 2048 && !(exists|r: int, c: int|
                    0 <= r < n && 0 <= c < 8 && p == #[trigger] pixel_index(x0, y0, r, c))
                    ==> #[trigger] m2.screen[p] == m.screen[p]
            &&& m2.v[15] == 1 <==> exists|r: int, c: int|
                0 <= r < n && 0 <= c < 8 && sprite_bit(m.memory[m.i + r], c)
                    && #[trigger] m.screen[pixel_index(x0, y0, r, c)]
            &&& m2.v[15] <= 1
        }),
{
    let m2 = step(m, InstrView::Draw(x, y, n), rnd)->Ok_0;
    let x0 = m.v[x as int] as int;
    let y0 = m.v[y as int] as int;
    assert forall|r: int, c: int| 0 <= r < n && 0 <= c < 8 implies m2.screen[#[trigger] pixel_index(
        x0,
        y0,
        r,
        c,
    )] == (m.screen[pixel_index(x0, y0, r, c)] != sprite_bit(m.memory[m.i + r], c)) by {
        lemma_pixel_offsets(x0, y0, r, c, 0);
    }
    assert forall|p: int|
        0 <= p < 2048 && !(exists|r: int, c: int|
            0 <= r < n && 0 <= c < 8 && p == #[trigger] pixel_index(x0, y0, r, c)) implies #[trigger] m2.screen[p]
        == m.screen[p] by {
        let r = row_off(p, y0);
        let c = col_off(p, x0);
        if sprite_hit(m.memory, m.i as int, n as int, x0, y0, p) {
            lemma_pixel_offsets(x0, y0, r, c, p);
            assert(p == pixel_index(x0, y0, r, c));
        }
    }
    let collided = exists|p: int|
        0 <= p < m.screen.len() && #[trigger] m.screen[p] && sprite_hit(
            m.memory,
            m.i as int,
            n as int,
            x0,
            y0,
            p,
        );
    let by_cell = exists|r: int, c: int|
        0 <= r < n && 0 <= c < 8 && sprite_bit(m.memory[m.i + r], c)
            && #[trigger] m.screen[pixel_index(x0, y0, r, c)];
    if collided {
        let p = choose|p: int|
            0 <= p < m.screen.len() && #[trigger] m.screen[p] && sprite_hit(
                m.memory,
                m.i as int,
                n as int,
                x0,
                y0,
                p,
            );
        let r = row_off(p, y0);
        let c = col_off(p, x0);
        lemma_pixel_offsets(x0, y0, r, c, p);
        assert(m.screen[pixel_index(x0, y0, r, c)]);
        assert(by_cell);
    }
    if by_cell {
        let (r, c) = choose|r: int, c: int|
            0 <= r < n && 0 <= c < 8 && sprite_bit(m.memory[m.i + r], c)
                && #[trigger] m.screen[pixel_index(x0, y0, r, c)];
        lemma_pixel_offsets(x0, y0, r, c, 0);
        let p = pixel_index(x0, y0, r, c);
        assert(m.screen[p] && sprite_hit(m.memory, m.i as int, n as int, x0, y0, p));
        assert(collided);
    }
}

/// `CLS` followed by `DRW` leaves lit exactly the cells that the sprite
/// sets, and `VF` at 0.
pub proof fn lemma_clear_then_draw(m: Machine, x: u8, y: u8, n: u8, rnd: u8)
    requires
        m.wf(),
        x < 16,
        y < 16,
        n < 16,
        m.i_in_bounds(n as int),
    ensures
        ({
            let m1 = step(m, InstrView::Plain(NoArgOp::Cls), rnd)->Ok_0;
            let x0 = m.v[x as int] as int;
            let y0 = m.v[y as int] as int;
            &&& step(m, InstrView::Plain(NoArgOp::Cls), rnd) is Ok
            &&& step(m1, InstrView::Draw(x, y, n), rnd) is Ok
            &&& forall|p: int|
                0 <= p < 2048 ==> #[trigger] step(m1, InstrView::Draw(x, y, n), rnd)->Ok_0.screen[p]
                    == sprite_hit(m.memory, m.i as int, n as int, x0, y0, p)
            &&& step(m1, InstrView::Draw(x, y, n), rnd)->Ok_0.v[15] == 0
        }),
{
    let m1 = step(m, InstrView::Plain(NoArgOp::Cls), rnd)->Ok_0;
    assert(m1.v == m.v);
    assert(m1.memory == m.memory);
}

impl Chip8System {
    /// Executes `instr`, with `random` as the byte that `RND` draws. On a
    /// fault the state is left as it was.
    pub fn execute_with(&mut self, instr: &Instr, random: u8) -> (r: Result<(), Fault>)
        requires
            old(self)@.wf(),
            instr@.wf(),
        ensures
            match step(old(self)@, instr@, random) {
                Ok(m) => r is Ok && final(self)@ == m,
                Err(e) => r == Err::<(), Fault>(e) && final(self)@ == old(self)@,
            },
            final(self)@.wf(),
    {
        match instr {
            Instr::Plain(NoArgOp::Cls) => {
                self.screen = falses(SCREEN_WIDTH * SCREEN_HEIGHT);
                Ok(())
            },
            Instr::Plain(NoArgOp::Ret) => {
                match self.stack.pop() {
                    None => Err(Fault::StackUnderflow),
                    Some(a) => {
                        self.pc = a;
                        Ok(())
                    },
                }
            },
            Instr::Addr(op, t) => self.exec_addr(*op, t),
            Instr::Byte(op, x, kk) => {
                self.exec_byte(*op, *x, *kk, random);
                Ok(())
            },
            Instr::Pair(op, x, y) => {
                self.exec_pair(*op, *x, *y);
                Ok(())
            },
            Instr::Reg(op, x) => self.exec_reg(*op, *x),
            Instr::Draw(d) => self.exec_draw(d.x, d.y, d.n),
            Instr::Word(_) => Err(Fault::WordExecuted),
            Instr::Undef(_) => Ok(()),
        }
    }

    /// Executes `instr`; `RND` draws its byte from the thread's random
    /// generator. On a fault the state is left as it was.
    pub fn execute(&mut self, instr: &Instr) -> (r: Result<(), Fault>)
        requires
            old(self)@.wf(),
            instr@.wf(),
        ensures
            exists|rnd: u8|
                match #[trigger] step(old(self)@, instr@, rnd) {
                    Ok(m) => r is Ok && final(self)@ == m,
                    Err(e) => r == Err::<(), Fault>(e) && final(self)@ == old(self)@,
                },
            final(self)@.wf(),
    {
        let rnd = match instr {
            Instr::Byte(ByteOp::Rnd, _, _) => random_byte(),
            _ => 0,
        };
        self.execute_with(instr, rnd)
    }

    /// The instruction that `opcode` stands for, or the opcode with the
    /// address it was fetched from (the program counter, less 2).
    pub fn get_opcode_obj(&self, opcode: u16) -> (r: Result<Instr, DecodeError>)
        ensures
            match decode_spec(opcode) {
                Some(i) => r is Ok && r->Ok_0@ == i,
                None => r == Err::<Instr, DecodeError>(
                    DecodeError { opcode, pc: self.pc.wrapping_sub(2) },
                ),
            },
            r is Ok ==> r->Ok_0@.wf() && r->Ok_0@.resolved(),
    {
        match Instr::decode(opcode) {
            Some(i) => {
                proof {
                    crate::instr::lemma_decode_encode(opcode);
                }
                Ok(i)
            },
            None => Err(DecodeError { opcode, pc: self.pc.wrapping_sub(2) }),
        }
    }

    fn tick_timers(&mut self)
        ensures
            final(self)@ == tick_timers(old(self)@),
    {
        if self.delay_countdown == 0 {
            if self.delay_timer != 0 {
                self.delay_timer = self.delay_timer - 1;
            }
            self.delay_countdown = self.delay_period;
        } else {
            self.delay_countdown = self.delay_countdown - 1;
        }
        if self.sound_countdown == 0 {
            if self.sound_timer != 0 {
                self.sound_timer = self.sound_timer - 1;
            }
            self.sound_countdown = self.sound_period;
        } else {
            self.sound_countdown = self.sound_countdown - 1;
        }
    }

    fn fetch(&mut self) -> (r: u16)
        requires
            old(self)@.wf(),
            old(self).pc + 1 < MEMORY_SIZE,
        ensures
            r == opcode_at(old(self).memory@, old(self).pc as int),
            final(self)@ == old(self)@.with_pc(old(self).pc.wrapping_add(2)),
    {
        let hi = self.memory[self.pc as usize] as u16;
        let lo = self.memory[self.pc as usize + 1] as u16;
        self.pc = self.pc.wrapping_add(2);
        hi * 0x100 + lo
    }

    /// Ticks the timers, then fetches and decodes the instruction at the
    /// program counter and moves past it.
    pub fn fetch_and_decode(&mut self) -> (r: Result<Instr, Fault>)
        requires
            old(self)@.wf(),
        ensures
            final(self)@ == fetch_spec(old(self)@).0,
            final(self)@.wf(),
            match fetch_spec(old(self)@).1 {
                Ok(i) => r is Ok && r->Ok_0@ == i,
                Err(e) => r == Err::<Instr, Fault>(e),
            },
            r is Ok ==> r->Ok_0@.wf() && r->Ok_0@.resolved(),
    {
        self.tick_timers();
        let pc = self.pc;
        if pc as usize + 1 >= MEMORY_SIZE {
            return Err(Fault::PcOutOfBounds(pc));
        }
        let opcode = self.fetch();
        if opcode == BREAK_OPCODE {
            return Err(Fault::Break(pc));
        }
        match Instr::decode(opcode) {
            Some(i) => {
                proof {
                    crate::instr::lemma_decode_encode(opcode);
                }
                Ok(i)
            },
            None => Err(Fault::UnknownOpcode(opcode, pc)),
        }
    }
}


/// The lowest index of a key that is down, or [`NO_KEY`] when none is.
pub fn first_pressed_key(keys: &[bool; 16]) -> (r: usize)
    ensures
        r <= NO_KEY,
        r < NO_KEY ==> keys@[r as int],
        forall|j: int| 0 <= j < r && j < 16 ==> !keys@[j],
{
    let mut k: usize = 0;
    while k < 16
        invariant
            k <= 16,
            forall|j: int| 0 <= j < k ==> !keys@[j],
        decreases 16 - k,
    {
        if keys[k] {
            return k;
        }
        k = k + 1;
    }
    NO_KEY
}


/// Executes `instrs` in order from `m`, with `rnd` as every byte that `RND`
/// draws; the first fault ends the run.
pub open spec fn run(m: Machine, instrs: Seq<InstrView>, rnd: u8) -> Result<Machine, Fault>
    decreases instrs.len(),
{
    if instrs.len() == 0 {
        Ok(m)
    } else {
        match run(m, instrs.drop_last(), rnd) {
            Ok(m1) => step(m1, instrs.last(), rnd),
            Err(e) => Err(e),
        }
    }
}

/// Running two sequences one after the other is running their
/// concatenation.
pub proof fn lemma_run_concat(m: Machine, a: Seq<InstrView>, b: Seq<InstrView>, rnd: u8)
    ensures
        run(m, a + b, rnd) == match run(m, a, rnd) {
            Ok(m1) => run(m1, b, rnd),
            Err(e) => Err(e),
        },
    decreases b.len(),
{
    if b.len() == 0 {
        assert(a + b =~= a);
    } else {
        assert((a + b).drop_last() =~= a + b.drop_last());
        assert((a + b).last() == b.last());
        lemma_run_concat(m, a, b.drop_last(), rnd);
    }
}

} // verus!
