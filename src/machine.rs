use vstd::prelude::*;
use crate::display::{blank, collides, drawn, CELLS, HEIGHT, WIDTH};
use crate::error::EmuError;
use crate::memory::{font_seq, overwrite, FONT_BASE, GLYPH_LEN, MAX_RAM, RESERVED};

verus! {

/// Number of general-purpose registers.
pub const NUM_REGS: usize = 16;

/// Number of return-address slots of the call stack.
pub const STACK_SIZE: usize = 16;

/// Index of the flag register VF.
pub const FLAG: usize = 0xF;

/// Multiplier of the pseudo-random generator.
pub const LCG_MUL: u64 = 1103515245;

/// Increment of the pseudo-random generator.
pub const LCG_INC: u64 = 12345;

/// Modulus of the pseudo-random generator.
pub const LCG_MOD: u64 = 0x8000_0000;

/// Seed of the pseudo-random generator of a new machine.
pub const DEFAULT_SEED: u64 = 0;

/// The state that follows `seed` in the linear-congruential generator.
pub open spec fn lcg_next(seed: u64) -> u64 {
    ((LCG_MUL * seed + LCG_INC) % (LCG_MOD as int)) as u64
}

/// One instruction, with its operands: `x` and `y` index registers, `nn` is
/// an immediate byte, `n` a sprite height and `addr` a 12-bit address.
#[derive(Debug, Clone, Copy, PartialEq, Eq, Structural)]
pub enum Op {
    /// `00E0`: clear the framebuffer.
    Cls,
    /// `00EE`: return from a subroutine, to the instruction after the call.
    Ret,
    /// `1nnn`: jump.
    Jp { addr: usize },
    /// `2nnn`: call a subroutine; the stack keeps the address of the call.
    Call { addr: usize },
    /// `3xnn`: skip the next instruction if `Vx == nn`.
    SeByte { x: usize, nn: u8 },
    /// `4xnn`: skip the next instruction if `Vx != nn`.
    SneByte { x: usize, nn: u8 },
    /// `5xy0`: skip the next instruction if `Vx == Vy`.
    SeReg { x: usize, y: usize },
    /// `9xy0`: skip the next instruction if `Vx != Vy`.
    SneReg { x: usize, y: usize },
    /// `6xnn`: `Vx = nn`.
    LdByte { x: usize, nn: u8 },
    /// `7xnn`: `Vx += nn`, wrapping, flag untouched.
    AddByte { x: usize, nn: u8 },
    /// `8xy0`: `Vx = Vy`.
    LdReg { x: usize, y: usize },
    /// `8xy1`: `Vx |= Vy`.
    Or { x: usize, y: usize },
    /// `8xy2`: `Vx &= Vy`.
    And { x: usize, y: usize },
    /// `8xy3`: `Vx ^= Vy`.
    Xor { x: usize, y: usize },
    /// `8xy4`: `Vx += Vy`, VF = carry.
    AddReg { x: usize, y: usize },
    /// `8xy5`: `Vx -= Vy`, VF = 1 when `Vx > Vy`.
    Sub { x: usize, y: usize },
    /// `8xy6`: `Vx >>= 1`, VF = the bit shifted out.
    Shr { x: usize },
    /// `8xy7`: `Vx = Vy - Vx`, VF = 1 when `Vy >= Vx`.
    Subn { x: usize, y: usize },
    /// `8xyE`: `Vx <<= 1`, VF = the bit shifted out.
    Shl { x: usize },
    /// `Annn`: `I = nnn`.
    LdI { addr: usize },
    /// `Bnnn`: jump to `nnn + V0`.
    JpV0 { addr: usize },
    /// `Cxnn`: `Vx = random byte & nn`.
    Rnd { x: usize, nn: u8 },
    /// `Dxyn`: draw the `n`-row sprite at `I` at (`Vx`, `Vy`).
    Drw { x: usize, y: usize, n: u8 },
    /// `Ex9E`: skip the next instruction if the held key is `Vx`.
    Skp { x: usize },
    /// `ExA1`: skip the next instruction unless the held key is `Vx`.
    Sknp { x: usize },
    /// `Fx07`: `Vx = DT`.
    LdVxDt { x: usize },
    /// `Fx0A`: wait for a key, then `Vx = key`.
    LdVxKey { x: usize },
    /// `Fx15`: `DT = Vx`.
    LdDtVx { x: usize },
    /// `Fx18`: `ST = Vx`.
    LdStVx { x: usize },
    /// `Fx1E`: `I += Vx`, wrapping at 16 bits.
    AddIVx { x: usize },
    /// `Fx29`: `I` = address of the glyph of digit `Vx`.
    LdFont { x: usize },
    /// `Fx33`: store the decimal digits of `Vx` at `I`, `I+1`, `I+2`.
    LdBcd { x: usize },
    /// `Fx55`: store `V0..=Vx` at `I..=I+x`.
    StoreRegs { x: usize },
    /// `Fx65`: load `V0..=Vx` from `I..=I+x`.
    LoadRegs { x: usize },
}

/// The register operand in bits 8-11 of an opcode word.
pub open spec fn field_x(w: u16) -> usize {
    ((w >> 8u16) & 0xF) as usize
}

/// The register operand in bits 4-7 of an opcode word.
pub open spec fn field_y(w: u16) -> usize {
    ((w >> 4u16) & 0xF) as usize
}

/// The 4-bit immediate in bits 0-3 of an opcode word.
pub open spec fn field_n(w: u16) -> u8 {
    (w & 0xF) as u8
}

/// The byte immediate in bits 0-7 of an opcode word.
pub open spec fn field_nn(w: u16) -> u8 {
    (w & 0xFF) as u8
}

/// The address in bits 0-11 of an opcode word.
pub open spec fn field_nnn(w: u16) -> usize {
    (w & 0xFFF) as usize
}

/// The instruction class in bits 12-15 of an opcode word.
pub open spec fn field_class(w: u16) -> u16 {
    w >> 12u16
}

/// The instruction that an opcode word encodes, if any.
pub open spec fn op_of(w: u16) -> Option<Op> {
    let c = field_class(w);
    let x = field_x(w);
    let y = field_y(w);
    let n = field_n(w);
    let nn = field_nn(w);
    let addr = field_nnn(w);
    if w == 0x00E0 {
        Some(Op::Cls)
    } else if w == 0x00EE {
        Some(Op::Ret)
    } else if c == 0x1 {
        Some(Op::Jp { addr })
    } else if c == 0x2 {
        Some(Op::Call { addr })
    } else if c == 0x3 {
        Some(Op::SeByte { x, nn })
    } else if c == 0x4 {
        Some(Op::SneByte { x, nn })
    } else if c == 0x5 && n == 0 {
        Some(Op::SeReg { x, y })
    } else if c == 0x6 {
        Some(Op::LdByte { x, nn })
    } else if c == 0x7 {
        Some(Op::AddByte { x, nn })
    } else if c == 0x8 && n == 0x0 {
        Some(Op::LdReg { x, y })
    } else if c == 0x8 && n == 0x1 {
        Some(Op::Or { x, y })
    } else if c == 0x8 && n == 0x2 {
        Some(Op::And { x, y })
    } else if c == 0x8 && n == 0x3 {
        Some(Op::Xor { x, y })
    } else if c == 0x8 && n == 0x4 {
        Some(Op::AddReg { x, y })
    } else if c == 0x8 && n == 0x5 {
        Some(Op::Sub { x, y })
    } else if c == 0x8 && n == 0x6 {
        Some(Op::Shr { x })
    } else if c == 0x8 && n == 0x7 {
        Some(Op::Subn { x, y })
    } else if c == 0x8 && n == 0xE {
        Some(Op::Shl { x })
    } else if c == 0x9 && n == 0 {
        Some(Op::SneReg { x, y })
    } else if c == 0xA {
        Some(Op::LdI { addr })
    } else if c == 0xB {
        Some(Op::JpV0 { addr })
    } else if c == 0xC {
        Some(Op::Rnd { x, nn })
    } else if c == 0xD {
        Some(Op::Drw { x, y, n })
    } else if c == 0xE && nn == 0x9E {
        Some(Op::Skp { x })
    } else if c == 0xE && nn == 0xA1 {
        Some(Op::Sknp { x })
    } else if c == 0xF && nn == 0x07 {
        Some(Op::LdVxDt { x })
    } else if c == 0xF && nn == 0x0A {
        Some(Op::LdVxKey { x })
    } else if c == 0xF && nn == 0x15 {
        Some(Op::LdDtVx { x })
    } else if c == 0xF && nn == 0x18 {
        Some(Op::LdStVx { x })
    } else if c == 0xF && nn == 0x1E {
        Some(Op::AddIVx { x })
    } else if c == 0xF && nn == 0x29 {
        Some(Op::LdFont { x })
    } else if c == 0xF && nn == 0x33 {
        Some(Op::LdBcd { x })
    } else if c == 0xF && nn == 0x55 {
        Some(Op::StoreRegs { x })
    } else if c == 0xF && nn == 0x65 {
        Some(Op::LoadRegs { x })
    } else {
        None
    }
}

impl Op {
    /// Register operands index a register, heights and addresses fit their
    /// fields.
    pub open spec fn wf(self) -> bool {
        match self {
            Op::Cls | Op::Ret => true,
            Op::Jp { addr } | Op::Call { addr } | Op::LdI { addr } | Op::JpV0 { addr } => addr
                < MAX_RAM,
            Op::SeReg { x, y } | Op::SneReg { x, y } | Op::LdReg { x, y } | Op::Or { x, y }
            | Op::And { x, y } | Op::Xor { x, y } | Op::AddReg { x, y } | Op::Sub { x, y }
            | Op::Subn { x, y } => x < NUM_REGS && y < NUM_REGS,
            Op::Drw { x, y, n } => x < NUM_REGS && y < NUM_REGS && n < 16,
            Op::SeByte { x, nn } | Op::SneByte { x, nn } | Op::LdByte { x, nn }
            | Op::AddByte { x, nn } | Op::Rnd { x, nn } => x < NUM_REGS,
            Op::Shr { x } | Op::Shl { x } | Op::Skp { x } | Op::Sknp { x } | Op::LdVxDt { x }
            | Op::LdVxKey { x } | Op::LdDtVx { x } | Op::LdStVx { x } | Op::AddIVx { x }
            | Op::LdFont { x } | Op::LdBcd { x } | Op::StoreRegs { x } | Op::LoadRegs { x } => x
                < NUM_REGS,
        }
    }
}

/// The whole state of the machine as values.
#[verifier::ext_equal]
pub struct Machine {
    pub pc: usize,
    pub sp: usize,
    pub dt: u8,
    pub st: u8,
    pub stack: Seq<u16>,
    pub v: Seq<u8>,
    pub i: u16,
    pub ram: Seq<u8>,
    pub grid: Seq<u8>,
    pub key: u8,
    pub seed: u64,
}

/// A new machine: registers, stack and timers zero, the font in memory and
/// nothing else, a dark framebuffer, no key held, execution to start at
/// `RESERVED`.
pub open spec fn initial() -> Machine {
    Machine {
        pc: RESERVED,
        sp: 0,
        dt: 0,
        st: 0,
        stack: Seq::new(STACK_SIZE as nat, |k: int| 0u16),
        v: Seq::new(NUM_REGS as nat, |k: int| 0u8),
        i: 0,
        ram: overwrite(Seq::new(MAX_RAM as nat, |k: int| 0u8), FONT_BASE as int, font_seq()),
        grid: blank(),
        key: 0,
        seed: DEFAULT_SEED,
    }
}

/// The opcode word stored big-endian at `addr` and `addr + 1`.
pub open spec fn word_at(ram: Seq<u8>, addr: int) -> u16 {
    (ram[addr] * 256 + ram[addr + 1]) as u16
}

/// The decimal digits of `b`, hundreds first.
pub open spec fn bcd(b: u8) -> Seq<u8> {
    seq![b / 100, (b / 10) % 10, b % 10]
}

impl Machine {
    /// Sizes of the register file, the stack, memory and the framebuffer;
    /// the stack pointer within the stack; pixels 0 or 1.
    pub open spec fn wf(self) -> bool {
        &&& self.v.len() == NUM_REGS
        &&& self.stack.len() == STACK_SIZE
        &&& self.sp <= STACK_SIZE
        &&& self.ram.len() == MAX_RAM
        &&& self.grid.len() == CELLS
        &&& forall|k: int| 0 <= k < CELLS ==> #[trigger] self.grid[k] <= 1
    }

    /// The machine with the program counter moved on by `k` bytes.
    pub open spec fn advance(self, k: int) -> Machine {
        Machine { pc: (self.pc + k) as usize, ..self }
    }

    /// Moves on past the next instruction when `c` holds, else to it.
    pub open spec fn skip_if(self, c: bool) -> Machine {
        self.advance(if c { 4 } else { 2 })
    }

    /// The machine with register `x` set to `b`.
    pub open spec fn set_v(self, x: int, b: u8) -> Machine {
        Machine { v: self.v.update(x, b), ..self }
    }

    /// The machine after one timer tick: each non-zero timer counts down.
    pub open spec fn tick(self) -> Machine {
        Machine {
            dt: if self.dt > 0 { (self.dt - 1) as u8 } else { 0 },
            st: if self.st > 0 { (self.st - 1) as u8 } else { 0 },
            ..self
        }
    }

    /// The error that executing `op` signals, if any.
    pub open spec fn fault(self, op: Op) -> Option<EmuError> {
        match op {
            Op::Ret => if self.sp == 0 {
                Some(EmuError::StackUnderflow)
            } else {
                None
            },
            Op::Call { .. } => if self.sp >= STACK_SIZE {
                Some(EmuError::StackOverflow)
            } else {
                None
            },
            Op::Drw { n, .. } => if self.i + n > MAX_RAM {
                Some(EmuError::OutOfBounds)
            } else {
                None
            },
            Op::LdBcd { .. } => if self.i + 3 > MAX_RAM {
                Some(EmuError::OutOfBounds)
            } else {
                None
            },
            Op::StoreRegs { x } | Op::LoadRegs { x } => if self.i + x + 1 > MAX_RAM {
                Some(EmuError::OutOfBounds)
            } else {
                None
            },
            _ => None,
        }
    }

    /// The machine after executing `op`, when it signals no error.
    pub open spec fn apply(self, op: Op) -> Machine {
        match op {
            Op::Cls => Machine { grid: blank(), ..self }.advance(2),
            Op::Ret => Machine {
                sp: (self.sp - 1) as usize,
                pc: (self.stack[self.sp - 1] + 2) as usize,
                ..self
            },
            Op::Jp { addr } => Machine { pc: addr, ..self },
            Op::Call { addr } => Machine {
                stack: self.stack.update(self.sp as int, self.pc as u16),
                sp: (self.sp + 1) as usize,
                pc: addr,
                ..self
            },
            Op::SeByte { x, nn } => self.skip_if(self.v[x as int] == nn),
            Op::SneByte { x, nn } => self.skip_if(self.v[x as int] != nn),
            Op::SeReg { x, y } => self.skip_if(self.v[x as int] == self.v[y as int]),
            Op::SneReg { x, y } => self.skip_if(self.v[x as int] != self.v[y as int]),
            Op::LdByte { x, nn } => self.set_v(x as int, nn).advance(2),
            Op::AddByte { x, nn } => self.set_v(x as int, ((self.v[x as int] + nn) % 256) as u8).advance(
                2,
            ),
            Op::LdReg { x, y } => self.set_v(x as int, self.v[y as int]).advance(2),
            Op::Or { x, y } => self.set_v(x as int, self.v[x as int] | self.v[y as int]).advance(2),
            Op::And { x, y } => self.set_v(x as int, self.v[x as int] & self.v[y as int]).advance(2),
            Op::Xor { x, y } => self.set_v(x as int, self.v[x as int] ^ self.v[y as int]).advance(2),
            Op::AddReg { x, y } => {
                let s = self.v[x as int] + self.v[y as int];
                self.set_v(x as int, (s % 256) as u8).set_v(
                    FLAG as int,
                    if s > 255 { 1 } else { 0 },
                ).advance(2)
            },
            Op::Sub { x, y } => {
                let a = self.v[x as int];
                let b = self.v[y as int];
                self.set_v(x as int, ((a - b) % 256) as u8).set_v(
                    FLAG as int,
                    if a > b { 1 } else { 0 },
                ).advance(2)
            },
            Op::Shr { x } => {
                let a = self.v[x as int];
                self.set_v(x as int, a / 2).set_v(FLAG as int, a % 2).advance(2)
            },
            Op::Subn { x, y } => {
                let a = self.v[x as int];
                let b = self.v[y as int];
                self.set_v(x as int, ((b - a) % 256) as u8).set_v(
                    FLAG as int,
                    if b >= a { 1 } else { 0 },
                ).advance(2)
            },
            Op::Shl { x } => {
                let a = self.v[x as int];
                self.set_v(x as int, ((a * 2) % 256) as u8).set_v(FLAG as int, a / 128).advance(2)
            },
            Op::LdI { addr } => Machine { i: addr as u16, ..self }.advance(2),
            Op::JpV0 { addr } => Machine { pc: (addr + self.v[0]) as usize, ..self },
            Op::Rnd { x, nn } => {
                let next = lcg_next(self.seed);
                Machine { seed: next, ..self.set_v(x as int, (next % 256) as u8 & nn) }.advance(2)
            },
            Op::Drw { x, y, n } => {
                let sprite = self.ram.subrange(self.i as int, self.i + n);
                let bx = self.v[x as int] as int;
                let by = self.v[y as int] as int;
                Machine { grid: drawn(self.grid, sprite, bx, by), ..self }.set_v(
                    FLAG as int,
                    if collides(self.grid, sprite, bx, by) { 1 } else { 0 },
                ).advance(2)
            },
            Op::Skp { x } => self.skip_if(self.key == self.v[x as int]),
            Op::Sknp { x } => self.skip_if(self.key != self.v[x as int]),
            Op::LdVxDt { x } => self.set_v(x as int, self.dt).advance(2),
            Op::LdVxKey { x } => if self.key != 0 {
                self.set_v(x as int, self.key).advance(2)
            } else {
                self
            },
            Op::LdDtVx { x } => Machine { dt: self.v[x as int], ..self }.advance(2),
            Op::LdStVx { x } => Machine { st: self.v[x as int], ..self }.advance(2),
            Op::AddIVx { x } => Machine { i: ((self.i + self.v[x as int]) % 0x10000) as u16, ..self }.advance(2),
            Op::LdFont { x } => Machine {
                i: (FONT_BASE + self.v[x as int] * GLYPH_LEN) as u16,
                ..self
            }.advance(2),
            Op::LdBcd { x } => Machine {
                ram: overwrite(self.ram, self.i as int, bcd(self.v[x as int])),
                ..self
            }.advance(2),
            Op::StoreRegs { x } => Machine {
                ram: overwrite(self.ram, self.i as int, self.v.subrange(0, x + 1)),
                ..self
            }.advance(2),
            Op::LoadRegs { x } => Machine {
                v: overwrite(self.v, 0, self.ram.subrange(self.i as int, self.i + x + 1)),
                ..self
            }.advance(2),
        }
    }

    /// One cycle: fetch the word at the program counter, decode it, and, when
    /// nothing fails, tick the timers if `tick` holds and execute it.
    pub open spec fn step(self, tick: bool) -> Result<Machine, EmuError> {
        if self.pc + 1 >= MAX_RAM {
            Err(EmuError::OutOfBounds)
        } else {
            match op_of(word_at(self.ram, self.pc as int)) {
                None => Err(EmuError::IllegalOpcode),
                Some(op) => match self.fault(op) {
                    Some(e) => Err(e),
                    None => Ok(
                        if tick {
                            self.tick()
                        } else {
                            self
                        }.apply(op),
                    ),
                },
            }
        }
    }
}

/// The machine after `k` consecutive calls of the subroutine at `addr`.
pub open spec fn calls(m: Machine, addr: usize, k: nat) -> Machine
    decreases k,
{
    if k == 0 {
        m
    } else {
        calls(m, addr, (k - 1) as nat).apply(Op::Call { addr })
    }
}

/// Loading `a` into a register and then adding `b` to it leaves
/// `(a + b) mod 256` there, changes no other register (the flag included,
/// unless it is the register added to), and signals no error.
pub proof fn lemma_load_then_add(m: Machine, x: usize, a: u8, b: u8)
    requires
        m.wf(),
        x < NUM_REGS,
    ensures
        m.fault(Op::LdByte { x, nn: a }) is None,
        m.apply(Op::LdByte { x, nn: a }).fault(Op::AddByte { x, nn: b }) is None,
        ({
            let m2 = m.apply(Op::LdByte { x, nn: a }).apply(Op::AddByte { x, nn: b });
            &&& m2.v[x as int] == (a + b) % 256
            &&& forall|j: int| 0 <= j < NUM_REGS && j != x ==> #[trigger] m2.v[j] == m.v[j]
            &&& m2.v.len() == NUM_REGS
        }),
{
}

/// A right shift sets the flag to the bit shifted out, the old low bit, and
/// a left shift to the old high bit, whatever the shifted value is and even
/// when the flag register is the one shifted.
pub proof fn lemma_shift_flags(m: Machine, x: usize)
    requires
        m.wf(),
        x < NUM_REGS,
    ensures
        m.apply(Op::Shr { x }).v[FLAG as int] == m.v[x as int] % 2,
        m.apply(Op::Shl { x }).v[FLAG as int] == m.v[x as int] / 128,
        x != FLAG ==> m.apply(Op::Shr { x }).v[x as int] == m.v[x as int] / 2,
        x != FLAG ==> m.apply(Op::Shl { x }).v[x as int] == (m.v[x as int] * 2) % 256,
{
}

/// After clearing the screen every pixel is dark.
pub proof fn lemma_cls_clears(m: Machine)
    requires
        m.wf(),
    ensures
        forall|y: int, x: int|
            0 <= y < HEIGHT && 0 <= x < WIDTH ==> #[trigger] m.apply(Op::Cls).grid[y
                * (WIDTH as int) + x] == 0,
{
}

/// A call followed by a return resumes at the instruction after the call,
/// with the stack pointer back where it was.
pub proof fn lemma_call_then_ret(m: Machine, addr: usize)
    requires
        m.wf(),
        m.sp < STACK_SIZE,
        m.pc < MAX_RAM,
    ensures
        m.fault(Op::Call { addr }) is None,
        m.apply(Op::Call { addr }).fault(Op::Ret) is None,
        m.apply(Op::Call { addr }).apply(Op::Ret).pc == m.pc + 2,
        m.apply(Op::Call { addr }).apply(Op::Ret).sp == m.sp,
{
}

/// Each call pushes one return address.
proof fn lemma_calls_depth(m: Machine, addr: usize, k: nat)
    requires
        m.wf(),
        m.sp == 0,
        k <= STACK_SIZE,
    ensures
        calls(m, addr, k).sp == k,
        calls(m, addr, k).stack.len() == STACK_SIZE,
    decreases k,
{
    if k > 0 {
        lemma_calls_depth(m, addr, (k - 1) as nat);
    }
}

/// From an empty stack, sixteen consecutive calls succeed and the
/// seventeenth signals `StackOverflow`.
pub proof fn lemma_call_overflow(m: Machine, addr: usize)
    requires
        m.wf(),
        m.sp == 0,
    ensures
        forall|k: nat| k < STACK_SIZE ==> (#[trigger] calls(m, addr, k)).fault(Op::Call { addr }) is None,
        calls(m, addr, STACK_SIZE as nat).fault(Op::Call { addr }) == Some(EmuError::StackOverflow),
{
    assert forall|k: nat| k < STACK_SIZE implies (#[trigger] calls(m, addr, k)).fault(
        Op::Call { addr },
    ) is None by {
        lemma_calls_depth(m, addr, k);
    }
    lemma_calls_depth(m, addr, STACK_SIZE as nat);
}

/// Storing `V0..=Vx` at I and loading them back from the same address
/// restores the registers.
pub proof fn lemma_store_then_load(m: Machine, x: usize)
    requires
        m.wf(),
        x < NUM_REGS,
        m.i + x + 1 <= MAX_RAM,
    ensures
        m.fault(Op::StoreRegs { x }) is None,
        m.apply(Op::StoreRegs { x }).fault(Op::LoadRegs { x }) is None,
        m.apply(Op::StoreRegs { x }).apply(Op::LoadRegs { x }).v == m.v,
{
    let m1 = m.apply(Op::StoreRegs { x });
    assert(m1.ram.subrange(m.i as int, m.i + x + 1) =~= m.v.subrange(0, x + 1));
    assert(overwrite(m.v, 0, m.v.subrange(0, x + 1)) =~= m.v);
}

} // verus!
