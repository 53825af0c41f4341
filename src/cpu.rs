use vstd::prelude::*;
use crate::display::Display;
use crate::error::EmuError;
use crate::keyboard::Keyboard;
use crate::machine::{
    bcd, field_class, field_n, field_nn, field_nnn, field_x, field_y, initial, lcg_next, op_of,
    word_at, Machine, Op, DEFAULT_SEED, FLAG, LCG_INC, LCG_MOD, LCG_MUL, NUM_REGS, STACK_SIZE,
};
use crate::memory::{font_set, overwrite, Memory, FONT_BASE, GLYPH_LEN, MAX_RAM, RESERVED};

verus! {

/// Advances the pseudo-random generator: returns the state that follows
/// `seed`. The low byte of the new state is the random byte it yields.
pub fn rand(seed: u64) -> (r: u64)
    ensures
        r == lcg_next(seed),
{
    let s = seed % LCG_MOD;
    proof {
        let m = LCG_MOD as int;
        vstd::arithmetic::div_mod::lemma_mul_mod_noop_right(LCG_MUL as int, seed as int, m);
        vstd::arithmetic::div_mod::lemma_add_mod_noop(LCG_MUL * s, LCG_INC as int, m);
        vstd::arithmetic::div_mod::lemma_add_mod_noop(LCG_MUL * seed, LCG_INC as int, m);
        assert(LCG_MUL * s < 0x4000_0000_0000_0000) by (nonlinear_arith)
            requires
                s < LCG_MOD,
        ;
    }
    (LCG_MUL * s + LCG_INC) % LCG_MOD
}

/// An opcode word split into its fields.
pub struct Instruction {
    pub opcode: u16,
    pub x: usize,
    pub y: usize,
    pub n: u8,
    pub nn: u8,
    pub nnn: usize,
}

impl Instruction {
    /// Each field holds its bits of `opcode`.
    pub open spec fn wf(&self) -> bool {
        &&& self.x == field_x(self.opcode)
        &&& self.y == field_y(self.opcode)
        &&& self.n == field_n(self.opcode)
        &&& self.nn == field_nn(self.opcode)
        &&& self.nnn == field_nnn(self.opcode)
    }

    /// Splits `opcode` into its fields; never fails.
    pub fn decode(opcode: u16) -> (r: Instruction)
        ensures
            r.opcode == opcode,
            r.wf(),
            r.x < 16,
            r.y < 16,
            r.n < 16,
            r.nnn < 0x1000,
    {
        let x = (opcode >> 8u16) & 0xF;
        let y = (opcode >> 4u16) & 0xF;
        let n = opcode & 0xF;
        let nnn = opcode & 0xFFF;
        assert(x < 16 && y < 16 && n < 16 && nnn < 0x1000) by (bit_vector)
            requires
                x == (opcode >> 8u16) & 0xF,
                y == (opcode >> 4u16) & 0xF,
                n == opcode & 0xF,
                nnn == opcode & 0xFFF,
        ;
        Instruction {
            opcode,
            x: x as usize,
            y: y as usize,
            n: n as u8,
            nn: (opcode & 0xFF) as u8,
            nnn: nnn as usize,
        }
    }

    /// The instruction this word encodes, or `IllegalOpcode`.
    pub fn op(&self) -> (r: Result<Op, EmuError>)
        requires
            self.wf(),
        ensures
            op_of(self.opcode) is Some ==> r == Ok::<Op, EmuError>(op_of(self.opcode)->0),
            op_of(self.opcode) is None ==> r == Err::<Op, EmuError>(EmuError::IllegalOpcode),
            r is Ok ==> r->Ok_0.wf(),
    {
        let w = self.opcode;
        let x = self.x;
        let y = self.y;
        let n = self.n;
        let nn = self.nn;
        let addr = self.nnn;
        proof {
            assert(field_x(w) < 16 && field_y(w) < 16 && field_n(w) < 16 && field_nnn(w) < 0x1000)
                by (bit_vector);
        }
        let c = w >> 12u16;
        assert(c == field_class(w));
        let r = if w == 0x00E0 {
            Ok(Op::Cls)
        } else if w == 0x00EE {
            Ok(Op::Ret)
        } else if c == 0x1 {
            Ok(Op::Jp { addr })
        } else if c == 0x2 {
            Ok(Op::Call { addr })
        } else if c == 0x3 {
            Ok(Op::SeByte { x, nn })
        } else if c == 0x4 {
            Ok(Op::SneByte { x, nn })
        } else if c == 0x5 && n == 0 {
            Ok(Op::SeReg { x, y })
        } else if c == 0x6 {
            Ok(Op::LdByte { x, nn })
        } else if c == 0x7 {
            Ok(Op::AddByte { x, nn })
        } else if c == 0x8 {
            match n {
                0x0 => Ok(Op::LdReg { x, y }),
                0x1 => Ok(Op::Or { x, y }),
                0x2 => Ok(Op::And { x, y }),
                0x3 => Ok(Op::Xor { x, y }),
                0x4 => Ok(Op::AddReg { x, y }),
                0x5 => Ok(Op::Sub { x, y }),
                0x6 => Ok(Op::Shr { x }),
                0x7 => Ok(Op::Subn { x, y }),
                0xE => Ok(Op::Shl { x }),
                _ => Err(EmuError::IllegalOpcode),
            }
        } else if c == 0x9 && n == 0 {
            Ok(Op::SneReg { x, y })
        } else if c == 0xA {
            Ok(Op::LdI { addr })
        } else if c == 0xB {
            Ok(Op::JpV0 { addr })
        } else if c == 0xC {
            Ok(Op::Rnd { x, nn })
        } else if c == 0xD {
            Ok(Op::Drw { x, y, n })
        } else if c == 0xE {
            match nn {
                0x9E => Ok(Op::Skp { x }),
                0xA1 => Ok(Op::Sknp { x }),
                _ => Err(EmuError::IllegalOpcode),
            }
        } else if c == 0xF {
            match nn {
                0x07 => Ok(Op::LdVxDt { x }),
                0x0A => Ok(Op::LdVxKey { x }),
                0x15 => Ok(Op::LdDtVx { x }),
                0x18 => Ok(Op::LdStVx { x }),
                0x1E => Ok(Op::AddIVx { x }),
                0x29 => Ok(Op::LdFont { x }),
                0x33 => Ok(Op::LdBcd { x }),
                0x55 => Ok(Op::StoreRegs { x }),
                0x65 => Ok(Op::LoadRegs { x }),
                _ => Err(EmuError::IllegalOpcode),
            }
        } else {
            Err(EmuError::IllegalOpcode)
        };
        r
    }
}

/// The register file: program counter, stack pointer, timers, call stack,
/// general-purpose registers V0-VF and the address register I.
pub struct Register {
    pub pc: usize,
    pub sp: usize,
    pub dt: u8,
    pub st: u8,
    pub stack: Vec<u16>,
    pub v: Vec<u8>,
    pub i: u16,
}

impl Register {
    /// Sixteen registers, sixteen stack slots, and the stack pointer within them.
    pub open spec fn wf(&self) -> bool {
        &&& self.stack@.len() == STACK_SIZE
        &&& self.v@.len() == NUM_REGS
        &&& self.sp <= STACK_SIZE
    }

    /// Registers at power-on: everything zero but the program counter, which
    /// points at `RESERVED`.
    pub fn new() -> (r: Register)
        ensures
            r.wf(),
            r.pc == RESERVED,
            r.sp == 0,
            r.dt == 0,
            r.st == 0,
            r.i == 0,
            r.stack@ == Seq::new(STACK_SIZE as nat, |k: int| 0u16),
            r.v@ == Seq::new(NUM_REGS as nat, |k: int| 0u8),
    {
        let r = Register {
            pc: RESERVED,
            sp: 0,
            dt: 0,
            st: 0,
            stack: vec![0u16; STACK_SIZE],
            v: vec![0u8; NUM_REGS],
            i: 0,
        };
        assert(r.stack@ =~= Seq::new(STACK_SIZE as nat, |k: int| 0u16));
        assert(r.v@ =~= Seq::new(NUM_REGS as nat, |k: int| 0u8));
        r
    }
}

/// The interpreter: registers, memory, framebuffer, keypad and the state of
/// the pseudo-random generator.
pub struct Cpu {
    pub register: Register,
    pub memory: Memory,
    pub display: Display,
    pub keyboard: Keyboard,
    pub seed: u64,
}

impl View for Cpu {
    type V = Machine;

    open spec fn view(&self) -> Machine {
        Machine {
            pc: self.register.pc,
            sp: self.register.sp,
            dt: self.register.dt,
            st: self.register.st,
            stack: self.register.stack@,
            v: self.register.v@,
            i: self.register.i,
            ram: self.memory.ram@,
            grid: self.display.grid@,
            key: self.keyboard.key,
            seed: self.seed,
        }
    }
}

impl Cpu {
    /// Each part has its sizes and bounds.
    pub open spec fn wf(&self) -> bool {
        &&& self.register.wf()
        &&& self.memory.wf()
        &&& self.display.wf()
    }

    /// A machine at power-on, with the font loaded and no program.
    pub fn new() -> (c: Cpu)
        ensures
            c.wf(),
            c@ == initial(),
    {
        let mut memory = Memory::new();
        let font = font_set();
        memory.load_font(font.as_slice());
        let c = Cpu {
            register: Register::new(),
            memory,
            display: Display::new(),
            keyboard: Keyboard::new(),
            seed: DEFAULT_SEED,
        };
        assert(c@ =~= initial());
        c
    }

    /// The opcode word at the program counter, or `OutOfBounds` when it
    /// would be read past the end of memory.
    pub fn get_opcode(&self) -> (r: Result<u16, EmuError>)
        requires
            self.wf(),
        ensures
            self.register.pc + 1 < MAX_RAM ==> r == Ok::<u16, EmuError>(
                word_at(self.memory.ram@, self.register.pc as int),
            ),
            self.register.pc + 1 >= MAX_RAM ==> r == Err::<u16, EmuError>(EmuError::OutOfBounds),
    {
        let pc = self.register.pc;
        if pc >= MAX_RAM - 1 {
            return Err(EmuError::OutOfBounds);
        }
        let hi = self.memory.ram[pc];
        let lo = self.memory.ram[pc + 1];
        let w: u16 = ((hi as u16) << 8u16) | (lo as u16);
        assert(((hi as u16) << 8u16) | (lo as u16) == (hi as u16) * 256 + (lo as u16)) by (bit_vector);
        Ok(w)
    }

    /// The instruction at the program counter, split into its fields.
    pub fn fetch(&self) -> (r: Result<Instruction, EmuError>)
        requires
            self.wf(),
        ensures
            self.register.pc + 1 < MAX_RAM ==> r is Ok && r->Ok_0.wf() && r->Ok_0.opcode == word_at(
                self.memory.ram@,
                self.register.pc as int,
            ),
            self.register.pc + 1 >= MAX_RAM ==> r == Err::<Instruction, EmuError>(EmuError::OutOfBounds),
    {
        match self.get_opcode() {
            Ok(w) => Ok(Instruction::decode(w)),
            Err(e) => Err(e),
        }
    }

    /// The error that executing `op` now would signal, if any.
    fn fault(&self, op: &Op) -> (r: Option<EmuError>)
        requires
            self.wf(),
        ensures
            r == self@.fault(*op),
    {
        let sp = self.register.sp;
        let i = self.register.i as usize;
        match *op {
            Op::Ret => if sp == 0 {
                Some(EmuError::StackUnderflow)
            } else {
                None
            },
            Op::Call { .. } => if sp >= STACK_SIZE {
                Some(EmuError::StackOverflow)
            } else {
                None
            },
            Op::Drw { n, .. } => if i + n as usize > MAX_RAM {
                Some(EmuError::OutOfBounds)
            } else {
                None
            },
            Op::LdBcd { .. } => if i + 3 > MAX_RAM {
                Some(EmuError::OutOfBounds)
            } else {
                None
            },
            Op::StoreRegs { x } | Op::LoadRegs { x } => if x >= MAX_RAM || i + x + 1 > MAX_RAM {
                Some(EmuError::OutOfBounds)
            } else {
                None
            },
            _ => None,
        }
    }

    /// Counts each non-zero timer down by one.
    pub fn tick_timers(&mut self)
        requires
            old(self).wf(),
        ensures
            final(self).wf(),
            final(self)@ == old(self)@.tick(),
    {
        if self.register.dt > 0 {
            self.register.dt = self.register.dt - 1;
        }
        if self.register.st > 0 {
            self.register.st = self.register.st - 1;
        }
    }
    /// Executes a control-flow instruction: clear, return, jump, call, or
    /// one of the skips.
    fn apply_flow(&mut self, op: Op)
        requires
            old(self).wf(),
            op.wf(),
            old(self)@.fault(op) is None,
            old(self).register.pc < MAX_RAM,
            op is Cls || op is Ret || op is Jp || op is Call || op is SeByte || op is SneByte
                || op is SeReg || op is SneReg || op is JpV0 || op is Skp || op is Sknp,
        ensures
            final(self).wf(),
            final(self)@ == old(self)@.apply(op),
    {
        let pc = self.register.pc;
        match op {
            Op::Cls => {
                self.display.clear();
                self.register.pc = pc + 2;
            },
            Op::Ret => {
                let sp = self.register.sp - 1;
                self.register.sp = sp;
                self.register.pc = self.register.stack[sp] as usize + 2;
            },
            Op::Jp { addr } => {
                self.register.pc = addr;
            },
            Op::Call { addr } => {
                let sp = self.register.sp;
                self.register.stack.set(sp, pc as u16);
                self.register.sp = sp + 1;
                self.register.pc = addr;
            },
            Op::SeByte { x, nn } => {
                self.register.pc = if self.register.v[x] == nn { pc + 4 } else { pc + 2 };
            },
            Op::SneByte { x, nn } => {
                self.register.pc = if self.register.v[x] != nn { pc + 4 } else { pc + 2 };
            },
            Op::SeReg { x, y } => {
                self.register.pc = if self.register.v[x] == self.register.v[y] { pc + 4 } else { pc + 2 };
            },
            Op::SneReg { x, y } => {
                self.register.pc = if self.register.v[x] != self.register.v[y] { pc + 4 } else { pc + 2 };
            },
            Op::JpV0 { addr } => {
                self.register.pc = addr + self.register.v[0] as usize;
            },
            Op::Skp { x } => {
                self.register.pc = if self.keyboard.key == self.register.v[x] { pc + 4 } else { pc + 2 };
            },
            Op::Sknp { x } => {
                self.register.pc = if self.keyboard.key != self.register.v[x] { pc + 4 } else { pc + 2 };
            },
            _ => {},
        }
        assert(self@ =~= old(self)@.apply(op));
    }

    /// Executes an instruction that computes into a register: the loads of
    /// an immediate or a register, the arithmetic and logic operations, the
    /// shifts, and the random byte.
    fn apply_alu(&mut self, op: Op)
        requires
            old(self).wf(),
            op.wf(),
            old(self).register.pc < MAX_RAM,
            op is LdByte || op is AddByte || op is LdReg || op is Or || op is And || op is Xor
                || op is AddReg || op is Sub || op is Shr || op is Subn || op is Shl || op is Rnd,
        ensures
            final(self).wf(),
            final(self)@ == old(self)@.apply(op),
    {
        let pc = self.register.pc;
        match op {
            Op::LdByte { x, nn } => {
                self.register.v.set(x, nn);
            },
            Op::AddByte { x, nn } => {
                let a = self.register.v[x];
                self.register.v.set(x, a.wrapping_add(nn));
            },
            Op::LdReg { x, y } => {
                let b = self.register.v[y];
                self.register.v.set(x, b);
            },
            Op::Or { x, y } => {
                let r = self.register.v[x] | self.register.v[y];
                self.register.v.set(x, r);
            },
            Op::And { x, y } => {
                let r = self.register.v[x] & self.register.v[y];
                self.register.v.set(x, r);
            },
            Op::Xor { x, y } => {
                let r = self.register.v[x] ^ self.register.v[y];
                self.register.v.set(x, r);
            },
            Op::AddReg { x, y } => {
                let a = self.register.v[x];
                let b = self.register.v[y];
                let carry: u8 = if a as u16 + b as u16 > 255 { 1 } else { 0 };
                self.register.v.set(x, a.wrapping_add(b));
                self.register.v.set(FLAG, carry);
            },
            Op::Sub { x, y } => {
                let a = self.register.v[x];
                let b = self.register.v[y];
                let no_borrow: u8 = if a > b { 1 } else { 0 };
                self.register.v.set(x, a.wrapping_sub(b));
                self.register.v.set(FLAG, no_borrow);
            },
            Op::Shr { x } => {
                let a = self.register.v[x];
                let out = a & 1;
                assert(a & 1 == a % 2 && a >> 1 == a / 2) by (bit_vector);
                self.register.v.set(x, a >> 1);
                self.register.v.set(FLAG, out);
            },
            Op::Subn { x, y } => {
                let a = self.register.v[x];
                let b = self.register.v[y];
                let no_borrow: u8 = if b >= a { 1 } else { 0 };
                self.register.v.set(x, b.wrapping_sub(a));
                self.register.v.set(FLAG, no_borrow);
            },
            Op::Shl { x } => {
                let a = self.register.v[x];
                let out = (a & 0x80) >> 7;
                assert((a & 0x80) >> 7 == a / 128 && a << 1 == (a * 2) % 256) by (bit_vector);
                self.register.v.set(x, a << 1);
                self.register.v.set(FLAG, out);
            },
            Op::Rnd { x, nn } => {
                let next = rand(self.seed);
                self.seed = next;
                self.register.v.set(x, (next % 256) as u8 & nn);
            },
            _ => {},
        }
        self.register.pc = pc + 2;
        assert(self@ =~= old(self)@.apply(op));
    }
    /// Executes an instruction that uses the address register: set or add
    /// to I, point I at a glyph, draw, and the decimal and register
    /// transfers to and from memory.
    fn apply_mem(&mut self, op: Op)
        requires
            old(self).wf(),
            op.wf(),
            old(self)@.fault(op) is None,
            old(self).register.pc < MAX_RAM,
            op is LdI || op is AddIVx || op is LdFont || op is Drw || op is LdBcd || op is StoreRegs
                || op is LoadRegs,
        ensures
            final(self).wf(),
            final(self)@ == old(self)@.apply(op),
    {
        let pc = self.register.pc;
        let i = self.register.i;
        match op {
            Op::LdI { addr } => {
                self.register.i = addr as u16;
            },
            Op::AddIVx { x } => {
                self.register.i = i.wrapping_add(self.register.v[x] as u16);
            },
            Op::LdFont { x } => {
                self.register.i = (FONT_BASE + self.register.v[x] as usize * GLYPH_LEN) as u16;
            },
            Op::Drw { x, y, n } => {
                let sprite = self.memory.read_bytes(i as usize, n as usize);
                let bx = self.register.v[x];
                let by = self.register.v[y];
                let hit = self.display.draw_sprite(bx, by, &sprite);
                self.register.v.set(FLAG, if hit { 1 } else { 0 });
            },
            Op::LdBcd { x } => {
                let b = self.register.v[x];
                let at = i as usize;
                self.memory.ram.set(at, b / 100);
                self.memory.ram.set(at + 1, (b / 10) % 10);
                self.memory.ram.set(at + 2, b % 10);
                assert(self.memory.ram@ =~= overwrite(old(self).memory.ram@, at as int, bcd(b)));
            },
            Op::StoreRegs { x } => {
                self.memory.copy_in(i as usize, self.register.v.as_slice(), x + 1);
            },
            Op::LoadRegs { x } => {
                let at = i as usize;
                let mut k: usize = 0;
                while k <= x
                    invariant
                        self.wf(),
                        x < NUM_REGS,
                        at + x + 1 <= MAX_RAM,
                        k <= x + 1,
                        self.memory == old(self).memory,
                        self.register.pc == old(self).register.pc,
                        self.register.sp == old(self).register.sp,
                        self.register.dt == old(self).register.dt,
                        self.register.st == old(self).register.st,
                        self.register.i == old(self).register.i,
                        self.register.stack == old(self).register.stack,
                        self.display == old(self).display,
                        self.keyboard == old(self).keyboard,
                        self.seed == old(self).seed,
                        self.register.v@ == overwrite(
                            old(self).register.v@,
                            0,
                            self.memory.ram@.subrange(at as int, at + k),
                        ),
                    decreases x + 1 - k,
                {
                    let b = self.memory.ram[at + k];
                    self.register.v.set(k, b);
                    k = k + 1;
                    assert(self.register.v@ =~= overwrite(
                        old(self).register.v@,
                        0,
                        self.memory.ram@.subrange(at as int, at + k),
                    ));
                }
            },
            _ => {},
        }
        self.register.pc = pc + 2;
        assert(self@ =~= old(self)@.apply(op));
    }

    /// Executes an instruction that moves a byte between a register and a
    /// timer or the keypad.
    fn apply_io(&mut self, op: Op)
        requires
            old(self).wf(),
            op.wf(),
            old(self).register.pc < MAX_RAM,
            op is LdVxDt || op is LdVxKey || op is LdDtVx || op is LdStVx,
        ensures
            final(self).wf(),
            final(self)@ == old(self)@.apply(op),
    {
        let pc = self.register.pc;
        match op {
            Op::LdVxDt { x } => {
                let t = self.register.dt;
                self.register.v.set(x, t);
                self.register.pc = pc + 2;
            },
            Op::LdVxKey { x } => {
                if self.keyboard.is_pressed() {
                    let k = self.keyboard.key;
                    self.register.v.set(x, k);
                    self.register.pc = pc + 2;
                }
            },
            Op::LdDtVx { x } => {
                self.register.dt = self.register.v[x];
                self.register.pc = pc + 2;
            },
            Op::LdStVx { x } => {
                self.register.st = self.register.v[x];
                self.register.pc = pc + 2;
            },
            _ => {},
        }
        assert(self@ =~= old(self)@.apply(op));
    }

    /// Executes `op`, which signals no error here.
    fn apply(&mut self, op: Op)
        requires
            old(self).wf(),
            op.wf(),
            old(self)@.fault(op) is None,
            old(self).register.pc < MAX_RAM,
        ensures
            final(self).wf(),
            final(self)@ == old(self)@.apply(op),
    {
        match op {
            Op::Cls | Op::Ret | Op::Jp { .. } | Op::Call { .. } | Op::SeByte { .. }
            | Op::SneByte { .. } | Op::SeReg { .. } | Op::SneReg { .. } | Op::JpV0 { .. }
            | Op::Skp { .. } | Op::Sknp { .. } => self.apply_flow(op),
            Op::LdByte { .. } | Op::AddByte { .. } | Op::LdReg { .. } | Op::Or { .. }
            | Op::And { .. } | Op::Xor { .. } | Op::AddReg { .. } | Op::Sub { .. } | Op::Shr { .. }
            | Op::Subn { .. } | Op::Shl { .. } | Op::Rnd { .. } => self.apply_alu(op),
            Op::LdI { .. } | Op::AddIVx { .. } | Op::LdFont { .. } | Op::Drw { .. }
            | Op::LdBcd { .. } | Op::StoreRegs { .. } | Op::LoadRegs { .. } => self.apply_mem(op),
            Op::LdVxDt { .. } | Op::LdVxKey { .. } | Op::LdDtVx { .. } | Op::LdStVx { .. } => self.apply_io(
                op,
            ),
        }
    }

    /// Executes `op` as the instruction at the program counter, without a
    /// timer tick. On an error nothing changes.
    pub fn execute(&mut self, op: Op) -> (r: Result<(), EmuError>)
        requires
            old(self).wf(),
            op.wf(),
            old(self).register.pc < MAX_RAM,
        ensures
            final(self).wf(),
            old(self)@.fault(op) is None ==> r == Ok::<(), EmuError>(()) && final(self)@ == old(
                self,
            )@.apply(op),
            old(self)@.fault(op) is Some ==> r == Err::<(), EmuError>(old(self)@.fault(op)->0)
                && final(self)@ == old(self)@,
    {
        match self.fault(&op) {
            Some(e) => Err(e),
            None => {
                self.apply(op);
                Ok(())
            },
        }
    }

    /// One cycle: fetches and decodes the instruction at the program
    /// counter and, unless that or its execution fails, counts the timers
    /// down when `tick` holds and executes it. On an error nothing changes.
    pub fn step(&mut self, tick: bool) -> (r: Result<(), EmuError>)
        requires
            old(self).wf(),
        ensures
            final(self).wf(),
            old(self)@.step(tick) is Ok ==> r == Ok::<(), EmuError>(()) && final(self)@ == old(
                self,
            )@.step(tick)->Ok_0,
            old(self)@.step(tick) is Err ==> r == Err::<(), EmuError>(old(self)@.step(tick)->Err_0)
                && final(self)@ == old(self)@,
    {
        let ins = match self.fetch() {
            Ok(ins) => ins,
            Err(e) => return Err(e),
        };
        let op = match ins.op() {
            Ok(op) => op,
            Err(e) => return Err(e),
        };
        if let Some(e) = self.fault(&op) {
            return Err(e);
        }
        if tick {
            self.tick_timers();
        }
        self.apply(op);
        Ok(())
    }

    /// One cycle with a timer tick: the single-step operation of the
    /// interpreter.
    pub fn cycle(&mut self) -> (r: Result<(), EmuError>)
        requires
            old(self).wf(),
        ensures
            final(self).wf(),
            old(self)@.step(true) is Ok ==> r == Ok::<(), EmuError>(()) && final(self)@ == old(
                self,
            )@.step(true)->Ok_0,
            old(self)@.step(true) is Err ==> r == Err::<(), EmuError>(old(self)@.step(true)->Err_0)
                && final(self)@ == old(self)@,
    {
        self.step(true)
    }
}

} // verus!
