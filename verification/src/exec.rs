//! The simulated processor: a register file with word/byte aliasing, two
//! flags, a flat 64K memory, an instruction pointer and a program boundary,
//! together with the interpreter that applies decoded instructions to it.
//!
//! Words stored to simulated memory are kept as a big-endian pair (high
//! byte at the lower address); this is a deliberate property of the state
//! representation, distinct from the little-endian layout of immediates in
//! the instruction encoding.
use vstd::prelude::*;
use vstd::string::StringExecFns;

use crate::decode::{spec_consumed, spec_inst};
use crate::{EffectiveAdress, Instruction, Place, RegisterByte, RegisterWord};

verus! {

/// The low byte of a word.
pub open spec fn lo_byte(w: u16) -> u8 {
    (w % 256) as u8
}

/// The high byte of a word.
pub open spec fn hi_byte(w: u16) -> u8 {
    (w / 256) as u8
}

/// The word with high byte `hi` and low byte `lo`.
pub open spec fn word_of(hi: u8, lo: u8) -> u16 {
    (hi * 256 + lo) as u16
}

/// The register file: four data registers addressable as a word or as two
/// aliased byte halves, four word-only pointer/index registers, and the two
/// modelled flags.  Each data register is a single word-sized cell; byte
/// access works by masked shift-and-combine against that cell.
#[derive(Debug, Clone, Copy, PartialEq, Eq, Structural)]
pub struct Registers {
    pub ax: u16,
    pub cx: u16,
    pub dx: u16,
    pub bx: u16,
    pub sp: u16,
    pub bp: u16,
    pub si: u16,
    pub di: u16,
    pub flag_zero: bool,
    pub flag_sign: bool,
}

impl Registers {
    /// The value of a word register.
    pub open spec fn spec_word(self, r: RegisterWord) -> u16 {
        match r {
            RegisterWord::AX => self.ax,
            RegisterWord::CX => self.cx,
            RegisterWord::DX => self.dx,
            RegisterWord::BX => self.bx,
            RegisterWord::SP => self.sp,
            RegisterWord::BP => self.bp,
            RegisterWord::SI => self.si,
            RegisterWord::DI => self.di,
        }
    }

    /// The register file after writing a word register.
    pub open spec fn spec_set_word(self, r: RegisterWord, v: u16) -> Registers {
        match r {
            RegisterWord::AX => Registers { ax: v, ..self },
            RegisterWord::CX => Registers { cx: v, ..self },
            RegisterWord::DX => Registers { dx: v, ..self },
            RegisterWord::BX => Registers { bx: v, ..self },
            RegisterWord::SP => Registers { sp: v, ..self },
            RegisterWord::BP => Registers { bp: v, ..self },
            RegisterWord::SI => Registers { si: v, ..self },
            RegisterWord::DI => Registers { di: v, ..self },
        }
    }

    /// The word cell a byte register aliases.
    pub open spec fn spec_host_word(r: RegisterByte) -> RegisterWord {
        match r {
            RegisterByte::AL => RegisterWord::AX,
            RegisterByte::CL => RegisterWord::CX,
            RegisterByte::DL => RegisterWord::DX,
            RegisterByte::BL => RegisterWord::BX,
            RegisterByte::AH => RegisterWord::AX,
            RegisterByte::CH => RegisterWord::CX,
            RegisterByte::DH => RegisterWord::DX,
            RegisterByte::BH => RegisterWord::BX,
        }
    }

    /// Whether a byte register names the high half of its word cell.
    pub open spec fn spec_is_high(r: RegisterByte) -> bool {
        match r {
            RegisterByte::AH | RegisterByte::CH | RegisterByte::DH | RegisterByte::BH => true,
            _ => false,
        }
    }

    /// The value of a byte register: the selected half of the word cell it
    /// aliases.
    pub open spec fn spec_byte(self, r: RegisterByte) -> u8 {
        let w = self.spec_word(Self::spec_host_word(r));
        if Self::spec_is_high(r) {
            hi_byte(w)
        } else {
            lo_byte(w)
        }
    }

    /// The register file after writing a byte register: the selected half of
    /// the word cell changes, the other half keeps its value.
    pub open spec fn spec_set_byte(self, r: RegisterByte, v: u8) -> Registers {
        let host = Self::spec_host_word(r);
        let w = self.spec_word(host);
        let new_word = if Self::spec_is_high(r) {
            word_of(v, lo_byte(w))
        } else {
            word_of(hi_byte(w), v)
        };
        self.spec_set_word(host, new_word)
    }

    /// Reads a word register.
    pub fn get_word(&self, r: RegisterWord) -> (v: u16)
        ensures
            v == self.spec_word(r),
    {
        match r {
            RegisterWord::AX => self.ax,
            RegisterWord::CX => self.cx,
            RegisterWord::DX => self.dx,
            RegisterWord::BX => self.bx,
            RegisterWord::SP => self.sp,
            RegisterWord::BP => self.bp,
            RegisterWord::SI => self.si,
            RegisterWord::DI => self.di,
        }
    }

    /// Writes a word register.
    pub fn set_word(&mut self, r: RegisterWord, v: u16)
        ensures
            *final(self) == old(self).spec_set_word(r, v),
    {
        match r {
            RegisterWord::AX => self.ax = v,
            RegisterWord::CX => self.cx = v,
            RegisterWord::DX => self.dx = v,
            RegisterWord::BX => self.bx = v,
            RegisterWord::SP => self.sp = v,
            RegisterWord::BP => self.bp = v,
            RegisterWord::SI => self.si = v,
            RegisterWord::DI => self.di = v,
        }
    }

    /// Reads a byte register out of the word cell it aliases.
    pub fn get_byte(&self, r: RegisterByte) -> (v: u8)
        ensures
            v == self.spec_byte(r),
    {
        let host = match r {
            RegisterByte::AL | RegisterByte::AH => RegisterWord::AX,
            RegisterByte::CL | RegisterByte::CH => RegisterWord::CX,
            RegisterByte::DL | RegisterByte::DH => RegisterWord::DX,
            RegisterByte::BL | RegisterByte::BH => RegisterWord::BX,
        };
        let w = self.get_word(host);
        let high = match r {
            RegisterByte::AH | RegisterByte::CH | RegisterByte::DH | RegisterByte::BH => true,
            _ => false,
        };
        if high {
            (w / 256) as u8
        } else {
            (w % 256) as u8
        }
    }

    /// Writes a byte register into the word cell it aliases, leaving the
    /// other half of that cell unchanged.
    pub fn set_byte(&mut self, r: RegisterByte, v: u8)
        ensures
            *final(self) == old(self).spec_set_byte(r, v),
    {
        let host = match r {
            RegisterByte::AL | RegisterByte::AH => RegisterWord::AX,
            RegisterByte::CL | RegisterByte::CH => RegisterWord::CX,
            RegisterByte::DL | RegisterByte::DH => RegisterWord::DX,
            RegisterByte::BL | RegisterByte::BH => RegisterWord::BX,
        };
        let w = self.get_word(host);
        let high = match r {
            RegisterByte::AH | RegisterByte::CH | RegisterByte::DH | RegisterByte::BH => true,
            _ => false,
        };
        let new_word = if high {
            (v as u16) * 256 + w % 256
        } else {
            (w / 256) * 256 + (v as u16)
        };
        self.set_word(host, new_word);
    }

    /// The flag summary: `S` when the sign flag is set, then `Z` when the
    /// zero flag is set.
    pub open spec fn spec_flags_string(self) -> Seq<char> {
        (if self.flag_sign {
            "S"@
        } else {
            Seq::<char>::empty()
        }) + (if self.flag_zero {
            "Z"@
        } else {
            Seq::<char>::empty()
        })
    }

    /// Renders the flag summary.
    pub fn flags_string(&self) -> (r: String)
        ensures
            r@ == self.spec_flags_string(),
    {
        let mut out = String::new();
        if self.flag_sign {
            out.append("S");
        }
        if self.flag_zero {
            out.append("Z");
        }
        assert(out@ =~= self.spec_flags_string());
        out
    }

    /// The register file with every register zero and both flags clear.
    pub open spec fn spec_zeroed() -> Registers {
        Registers {
            ax: 0u16,
            cx: 0u16,
            dx: 0u16,
            bx: 0u16,
            sp: 0u16,
            bp: 0u16,
            si: 0u16,
            di: 0u16,
            flag_zero: false,
            flag_sign: false,
        }
    }

    /// The register file after an arithmetic result updates the flags:
    /// sign from the top bit of the result, zero from the result being
    /// zero.
    pub open spec fn spec_with_flags(self, result: u16) -> Registers {
        Registers { flag_sign: result >= 0x8000, flag_zero: result == 0, ..self }
    }
}

/// The size of the simulated address space.
pub open spec fn mem_size() -> int {
    65536
}

/// A memory word read big-endian from `a` and its wrapped successor.
pub open spec fn spec_mem_word(mem: Seq<u8>, a: int) -> u16
    recommends
        mem.len() == mem_size(),
        0 <= a < mem_size(),
{
    word_of(mem[a], mem[(a + 1) % 65536])
}

/// Memory after a big-endian word store at `a`: high byte at the lower
/// address, low byte at the wrapped successor.
pub open spec fn spec_mem_write_word(mem: Seq<u8>, a: int, v: u16) -> Seq<u8>
    recommends
        mem.len() == mem_size(),
        0 <= a < mem_size(),
{
    mem.update(a, hi_byte(v)).update((a + 1) % 65536, lo_byte(v))
}

/// Memory after a single byte store at `a`.
pub open spec fn spec_mem_write_byte(mem: Seq<u8>, a: int, v: u8) -> Seq<u8>
    recommends
        mem.len() == mem_size(),
        0 <= a < mem_size(),
{
    mem.update(a, v)
}

/// The value of the base-register combination a three-bit base-index
/// selects, before the displacement is added.
pub open spec fn spec_ea_base(regs: Registers, index: u8) -> int {
    if index == 0 {
        regs.bx + regs.si
    } else if index == 1 {
        regs.bx + regs.di
    } else if index == 2 {
        regs.bp + regs.si
    } else if index == 3 {
        regs.bp + regs.di
    } else if index == 4 {
        regs.si as int
    } else if index == 5 {
        regs.di as int
    } else if index == 6 {
        regs.bp as int
    } else {
        regs.bx as int
    }
}

/// The effective address a memory operand resolves to: the direct-address
/// special case uses the displacement as an absolute address, every other
/// form sums the base combination and the displacement modulo the 64K
/// address space.
pub open spec fn spec_ea_addr(regs: Registers, ea: EffectiveAdress) -> int {
    if ea.is_direct() {
        ea.displacement as int
    } else {
        (spec_ea_base(regs, ea.index) + ea.displacement) % 65536
    }
}

impl Registers {
    /// Computes the effective address of a memory operand against this
    /// register file.
    pub fn ea_address(&self, ea: &EffectiveAdress) -> (a: usize)
        requires
            ea.wf(),
        ensures
            a == spec_ea_addr(*self, *ea),
            a < 65536,
    {
        if matches!(ea.mode, crate::Mode::EffectiveAdress) && ea.index == 6 {
            ea.displacement as usize
        } else {
            let base: u32 = if ea.index == 0 {
                self.bx as u32 + self.si as u32
            } else if ea.index == 1 {
                self.bx as u32 + self.di as u32
            } else if ea.index == 2 {
                self.bp as u32 + self.si as u32
            } else if ea.index == 3 {
                self.bp as u32 + self.di as u32
            } else if ea.index == 4 {
                self.si as u32
            } else if ea.index == 5 {
                self.di as u32
            } else if ea.index == 6 {
                self.bp as u32
            } else {
                self.bx as u32
            };
            (((base + ea.displacement as u32) % 65536) as usize)
        }
    }
}

/// The ghost view of the whole processor state.
pub ghost struct StateView {
    pub regs: Registers,
    pub mem: Seq<u8>,
    pub program_end: int,
    pub ip: int,
}

impl StateView {
    /// The state is well formed: the memory spans the full 64K address
    /// space and the instruction pointer and program boundary lie inside
    /// it.
    pub open spec fn wf(self) -> bool {
        &&& self.mem.len() == mem_size()
        &&& 0 <= self.ip <= mem_size()
        &&& 0 <= self.program_end <= mem_size()
    }
}

/// The processor state: registers, the flat 64K memory, the instruction
/// pointer and the boundary marking how many bytes of program were loaded.
pub struct State {
    pub registers: Registers,
    pub memory: Vec<u8>,
    pub program_end: usize,
    pub instruction_pointer: usize,
}

impl View for State {
    type V = StateView;

    open spec fn view(&self) -> StateView {
        StateView {
            regs: self.registers,
            mem: self.memory@,
            program_end: self.program_end as int,
            ip: self.instruction_pointer as int,
        }
    }
}

impl Default for State {
    /// A zeroed processor: cleared registers and flags, zero-filled 64K
    /// memory, instruction pointer and program boundary at zero.
    fn default() -> (r: State)
        ensures
            r@.wf(),
            r@.regs == Registers::spec_zeroed(),
            r@.ip == 0,
            r@.program_end == 0,
            forall|i: int| 0 <= i < mem_size() ==> r@.mem[i] == 0u8,
    {
        State {
            memory: vec![0u8; 65536],
            registers: Registers::default(),
            program_end: 0,
            instruction_pointer: 0,
        }
    }
}

impl State {
    /// Whether this state is well formed.
    pub open spec fn wf(self) -> bool {
        self@.wf()
    }

    /// Copies a program image into memory at offset zero and records its
    /// end, capped to the 64K address space; registers and the instruction
    /// pointer are left alone.
    pub fn set_program(&mut self, program: &[u8])
        requires
            old(self)@.wf(),
        ensures
            final(self)@.wf(),
            final(self)@.regs == old(self)@.regs,
            final(self)@.ip == old(self)@.ip,
            final(self)@.program_end == if program@.len() <= 65536 {
                program@.len() as int
            } else {
                65536int
            },
            forall|i: int|
                0 <= i < final(self)@.program_end ==> final(self)@.mem[i] == program@[i],
            forall|i: int|
                final(self)@.program_end <= i < mem_size() ==> final(self)@.mem[i] == old(
                    self,
                )@.mem[i],
    {
        let len = if program.len() <= 65536 {
            program.len()
        } else {
            65536
        };
        let mut i: usize = 0;
        while i < len
            invariant
                len <= program@.len(),
                len <= 65536,
                i <= len,
                self@.mem.len() == mem_size(),
                self@.regs == old(self)@.regs,
                self@.ip == old(self)@.ip,
                self@.program_end == old(self)@.program_end,
                forall|j: int| 0 <= j < i ==> self@.mem[j] == program@[j],
                forall|j: int| i <= j < mem_size() ==> self@.mem[j] == old(self)@.mem[j],
            decreases len - i,
        {
            self.memory[i] = program[i];
            i = i + 1;
        }
        self.program_end = len;
    }

    /// Reads the big-endian memory word at `a`.
    pub fn read_word_at(&self, a: usize) -> (v: u16)
        requires
            self@.wf(),
            a < 65536,
        ensures
            v == spec_mem_word(self@.mem, a as int),
    {
        let hi = self.memory[a];
        let next = if a + 1 == 65536 {
            0
        } else {
            a + 1
        };
        let lo = self.memory[next];
        (hi as u16) * 256 + (lo as u16)
    }

    /// Stores a word big-endian at `a`, wrapping at the end of the address
    /// space.
    pub fn write_word_at(&mut self, a: usize, v: u16)
        requires
            old(self)@.wf(),
            a < 65536,
        ensures
            final(self)@.wf(),
            final(self)@.mem == spec_mem_write_word(old(self)@.mem, a as int, v),
            final(self)@.regs == old(self)@.regs,
            final(self)@.ip == old(self)@.ip,
            final(self)@.program_end == old(self)@.program_end,
    {
        let next = if a + 1 == 65536 {
            0
        } else {
            a + 1
        };
        self.memory[a] = (v / 256) as u8;
        self.memory[next] = (v % 256) as u8;
    }

    /// Stores one byte at `a`.
    pub fn write_byte_at(&mut self, a: usize, v: u8)
        requires
            old(self)@.wf(),
            a < 65536,
        ensures
            final(self)@.wf(),
            final(self)@.mem == spec_mem_write_byte(old(self)@.mem, a as int, v),
            final(self)@.regs == old(self)@.regs,
            final(self)@.ip == old(self)@.ip,
            final(self)@.program_end == old(self)@.program_end,
    {
        self.memory[a] = v;
    }
}

/// Which instructions the interpreter gives semantics to; everything else
/// is an unimplemented operation, a fatal condition for a run.
pub open spec fn spec_defined(inst: Instruction) -> bool {
    match inst {
        Instruction::MovImmediate { target, .. } => !(target is Adress),
        Instruction::Arithmetic { op, target, source } => (op == 0 || op == 5 || op == 7)
            && target is Word && !(source is Byte),
        Instruction::ArithmeticImmediate { op, target, .. } => (op == 0 || op == 5 || op == 7)
            && target is Word,
        Instruction::ArithmeticImmediateToMemory { op, target, .. } => (op == 0 || op == 5 || op
            == 7) && target is Word,
        Instruction::Jump { marker, .. } => (marker / 2) % 8 == 2,
        Instruction::Loop { .. } => false,
        Instruction::Mov { target, source } => (target is Word && !(source is Byte)) || (
        target is Adress && source is Word),
        Instruction::MovImmediateToMemory { target, .. } => target is Adress,
        Instruction::Unrecognized(_) => false,
    }
}

/// Whether a conditional jump fires: the condition's value, inverted when
/// the opcode's negation bit is set.
pub open spec fn spec_jump_taken(marker: u8, regs: Registers) -> bool {
    regs.flag_zero != (marker % 2 == 1)
}

/// What the interpreter may be asked to run: a well-formed instruction with
/// defined semantics against a well-formed state, with a taken jump staying
/// inside the address space.
pub open spec fn run_req(inst: Instruction, pre: StateView) -> bool {
    &&& pre.wf()
    &&& inst.wf()
    &&& spec_defined(inst)
    &&& match inst {
        Instruction::Jump { marker, offset } => spec_jump_taken(marker, pre.regs) ==> 0 <= pre.ip
            + offset <= mem_size(),
        _ => true,
    }
}

/// The wrapping 16-bit result of an arithmetic-group operation: addition
/// for selector 0, subtraction for selectors 5 (sub) and 7 (cmp).
pub open spec fn spec_arith_result(op: u8, a: u16, b: u16) -> u16 {
    if op == 0 {
        ((a + b) % 65536) as u16
    } else {
        ((a - b) % 65536) as u16
    }
}

/// The state after an arithmetic-group operation on a word register: sub
/// and add store the result, cmp discards it, and all three set the flags
/// from it.
pub open spec fn spec_run_arith(pre: StateView, op: u8, t: RegisterWord, v: u16) -> StateView {
    let result = spec_arith_result(op, pre.regs.spec_word(t), v);
    let written = if op == 7 {
        pre.regs
    } else {
        pre.regs.spec_set_word(t, result)
    };
    StateView { regs: written.spec_with_flags(result), ..pre }
}

/// The 16-bit value an instruction's source operand denotes: a word
/// register's value or the memory word at a resolved effective address.
pub open spec fn spec_source_value(pre: StateView, source: Place) -> u16 {
    match source {
        Place::Word(s) => pre.regs.spec_word(s),
        Place::Adress(ea) => spec_mem_word(pre.mem, spec_ea_addr(pre.regs, ea)),
        Place::Byte(b) => pre.regs.spec_byte(b) as u16,
    }
}

/// The state after applying exactly one instruction's effect: register and
/// memory writes, flag updates, and the instruction-pointer adjustment of a
/// taken jump.
pub open spec fn spec_run(inst: Instruction, pre: StateView) -> StateView {
    match inst {
        Instruction::MovImmediate { target, immediate } => match target {
            Place::Byte(r) => StateView {
                regs: pre.regs.spec_set_byte(r, lo_byte(immediate)),
                ..pre
            },
            Place::Word(r) => StateView { regs: pre.regs.spec_set_word(r, immediate), ..pre },
            Place::Adress(_) => pre,
        },
        Instruction::Arithmetic { op, target, source } => match target {
            Place::Word(t) => spec_run_arith(pre, op, t, spec_source_value(pre, source)),
            _ => pre,
        },
        Instruction::ArithmeticImmediate { op, target, immediate } => match target {
            Place::Word(t) => spec_run_arith(pre, op, t, immediate),
            _ => pre,
        },
        Instruction::ArithmeticImmediateToMemory { op, target, immediate, .. } => match target {
            Place::Word(t) => spec_run_arith(pre, op, t, immediate),
            _ => pre,
        },
        Instruction::Jump { marker, offset } => if spec_jump_taken(marker, pre.regs) {
            StateView { ip: pre.ip + offset, ..pre }
        } else {
            pre
        },
        Instruction::Mov { target, source } => match (target, source) {
            (Place::Word(t), _) => StateView {
                regs: pre.regs.spec_set_word(t, spec_source_value(pre, source)),
                ..pre
            },
            (Place::Adress(ea), Place::Word(s)) => StateView {
                mem: spec_mem_write_word(pre.mem, spec_ea_addr(pre.regs, ea), pre.regs.spec_word(s)),
                ..pre
            },
            _ => pre,
        },
        Instruction::MovImmediateToMemory { word_mode, target, immediate } => match target {
            Place::Adress(ea) => if word_mode {
                StateView {
                    mem: spec_mem_write_word(pre.mem, spec_ea_addr(pre.regs, ea), immediate),
                    ..pre
                }
            } else {
                StateView {
                    mem: spec_mem_write_byte(
                        pre.mem,
                        spec_ea_addr(pre.regs, ea),
                        lo_byte(immediate),
                    ),
                    ..pre
                }
            },
            _ => pre,
        },
        _ => pre,
    }
}

/// The fatal condition a run ends in when it reaches an instruction whose
/// semantics are not defined.
#[derive(Debug, Clone, Copy, PartialEq, Eq, Structural)]
pub enum ExecError {
    UnimplementedOperation,
}

/// Applies one arithmetic-group operation to a word register target.
fn run_arith(state: &mut State, op: u8, t: RegisterWord, v: u16)
    requires
        old(state)@.wf(),
        op == 0 || op == 5 || op == 7,
    ensures
        final(state)@ == spec_run_arith(old(state)@, op, t, v),
        final(state)@.wf(),
{
    let a = state.registers.get_word(t);
    let result: u16 = if op == 0 {
        (((a as u32) + (v as u32)) % 65536) as u16
    } else {
        proof {
            vstd::arithmetic::div_mod::lemma_mod_add_multiples_vanish(a - v, 65536);
        }
        (((a as u32) + 65536 - (v as u32)) % 65536) as u16
    };
    let mut regs = state.registers;
    if op != 7 {
        regs.set_word(t, result);
    }
    regs.flag_sign = result >= 0x8000;
    regs.flag_zero = result == 0;
    state.registers = regs;
}

impl Instruction {
    /// Reads the 16-bit value of this instruction's source operand.
    fn source_value(source: &Place, state: &State) -> (v: u16)
        requires
            state@.wf(),
            source.wf(),
            !(source is Byte),
        ensures
            v == spec_source_value(state@, *source),
    {
        match source {
            Place::Word(s) => state.registers.get_word(*s),
            Place::Adress(ea) => {
                let addr = state.registers.ea_address(ea);
                state.read_word_at(addr)
            },
            Place::Byte(b) => state.registers.get_byte(*b) as u16,
        }
    }

    /// Applies exactly one instruction's effect to the state: register and
    /// memory writes, flag updates, and the instruction-pointer adjustment
    /// of a taken jump.
    pub fn run(self, state: &mut State)
        requires
            run_req(self, old(state)@),
        ensures
            final(state)@ == spec_run(self, old(state)@),
            final(state)@.wf(),
    {
        match self {
            Instruction::MovImmediate { target, immediate } => {
                let mut regs = state.registers;
                match target {
                    Place::Byte(r) => regs.set_byte(r, (immediate % 256) as u8),
                    Place::Word(r) => regs.set_word(r, immediate),
                    Place::Adress(_) => {},
                }
                state.registers = regs;
            },
            Instruction::Arithmetic { op, target, source } => {
                match target {
                    Place::Word(t) => {
                        let v = Self::source_value(&source, state);
                        run_arith(state, op, t, v);
                    },
                    _ => {},
                }
            },
            Instruction::ArithmeticImmediate { op, target, immediate } => {
                match target {
                    Place::Word(t) => run_arith(state, op, t, immediate),
                    _ => {},
                }
            },
            Instruction::ArithmeticImmediateToMemory { op, target, immediate, .. } => {
                match target {
                    Place::Word(t) => run_arith(state, op, t, immediate),
                    _ => {},
                }
            },
            Instruction::Jump { marker, offset } => {
                let negated = marker % 2 == 1;
                if state.registers.flag_zero != negated {
                    let new_ip = (state.instruction_pointer as i64) + (offset as i64);
                    state.instruction_pointer = new_ip as usize;
                }
            },
            Instruction::Mov { target, source } => {
                match target {
                    Place::Word(t) => {
                        let v = Self::source_value(&source, state);
                        let mut regs = state.registers;
                        regs.set_word(t, v);
                        state.registers = regs;
                    },
                    Place::Adress(ea) => {
                        match source {
                            Place::Word(s) => {
                                let addr = state.registers.ea_address(&ea);
                                let v = state.registers.get_word(s);
                                state.write_word_at(addr, v);
                            },
                            _ => {},
                        }
                    },
                    _ => {},
                }
            },
            Instruction::MovImmediateToMemory { word_mode, target, immediate } => {
                match target {
                    Place::Adress(ea) => {
                        let addr = state.registers.ea_address(&ea);
                        if word_mode {
                            state.write_word_at(addr, immediate);
                        } else {
                            state.write_byte_at(addr, (immediate % 256) as u8);
                        }
                    },
                    _ => {},
                }
            },
            _ => {},
        }
    }

    /// Decides whether this instruction can be run against the given state:
    /// its semantics are defined and a taken jump stays inside the address
    /// space.
    pub fn runnable(&self, state: &State) -> (r: bool)
        requires
            state@.wf(),
            self.wf(),
        ensures
            r == run_req(*self, state@),
    {
        match self {
            Instruction::MovImmediate { target, .. } => !matches!(target, Place::Adress(_)),
            Instruction::Arithmetic { op, target, source } => (*op == 0 || *op == 5 || *op == 7)
                && matches!(target, Place::Word(_)) && !matches!(source, Place::Byte(_)),
            Instruction::ArithmeticImmediate { op, target, .. } => (*op == 0 || *op == 5 || *op
                == 7) && matches!(target, Place::Word(_)),
            Instruction::ArithmeticImmediateToMemory { op, target, .. } => (*op == 0 || *op == 5
                || *op == 7) && matches!(target, Place::Word(_)),
            Instruction::Jump { marker, offset } => {
                if (*marker / 2) % 8 != 2 {
                    false
                } else if state.registers.flag_zero != (*marker % 2 == 1) {
                    let new_ip = (state.instruction_pointer as i64) + (*offset as i64);
                    0 <= new_ip && new_ip <= 65536
                } else {
                    true
                }
            },
            Instruction::Loop { .. } => false,
            Instruction::Mov { target, source } => (matches!(target, Place::Word(_)) && !matches!(
                source,
                Place::Byte(_),
            )) || (matches!(target, Place::Adress(_)) && matches!(source, Place::Word(_))),
            Instruction::MovImmediateToMemory { target, .. } => matches!(target, Place::Adress(_)),
            Instruction::Unrecognized(_) => false,
        }
    }
}

/// The instruction the driver would fetch next: decoded from memory at the
/// instruction pointer, with everything past the pointer visible to the
/// decoder.
pub open spec fn step_inst(v: StateView) -> Instruction {
    spec_inst(v.mem.skip(v.ip))
}

/// The state after the fetch alone: the instruction pointer has advanced
/// past the fetched instruction, nothing else has changed.  Branch offsets
/// are relative to this state.
pub open spec fn step_mid(v: StateView) -> StateView {
    StateView { ip: v.ip + spec_consumed(v.mem.skip(v.ip)), ..v }
}

/// Whether the fetched instruction can be run from the post-fetch state.
pub open spec fn step_ok(v: StateView) -> bool {
    run_req(step_inst(v), step_mid(v))
}

/// One full driver step: fetch, advance, execute.
pub open spec fn spec_step(v: StateView) -> StateView {
    if step_ok(v) {
        spec_run(step_inst(v), step_mid(v))
    } else {
        step_mid(v)
    }
}

/// `k` full driver steps.
pub open spec fn spec_steps(v: StateView, k: nat) -> StateView
    decreases k,
{
    if k == 0 {
        v
    } else {
        spec_step(spec_steps(v, (k - 1) as nat))
    }
}

/// Whether `k` driver steps from `v` all fetched before the program end and
/// hit only defined instructions.
pub open spec fn steps_ok(v: StateView, k: nat) -> bool
    decreases k,
{
    if k == 0 {
        true
    } else {
        let prev = spec_steps(v, (k - 1) as nat);
        steps_ok(v, (k - 1) as nat) && prev.ip < prev.program_end && step_ok(prev)
    }
}

/// Fetches the instruction at the instruction pointer, advances the pointer
/// past it, then executes it if its semantics are defined; otherwise the
/// pointer stays advanced and the unimplemented-operation error is
/// returned.
pub fn step(state: &mut State) -> (r: Result<Instruction, ExecError>)
    requires
        old(state)@.wf(),
    ensures
        final(state)@.wf(),
        r is Ok ==> step_ok(old(state)@) && final(state)@ == spec_step(old(state)@) && r->Ok_0
            == step_inst(old(state)@),
        r is Err ==> !step_ok(old(state)@) && final(state)@ == step_mid(old(state)@) && r->Err_0
            == ExecError::UnimplementedOperation,
{
    let ghost pre = state@;
    let ip = state.instruction_pointer;
    let mem_slice = state.memory.as_slice();
    let mut tail: &[u8] = vstd::slice::slice_subrange(mem_slice, ip, mem_slice.len());
    proof {
        assert(tail@ =~= pre.mem.skip(pre.ip));
    }
    let (consumed, instruction) = crate::decode::single_instruction(&mut tail);
    proof {
        crate::decode::lemma_decode_wf(pre.mem.skip(pre.ip));
    }
    state.instruction_pointer = ip + consumed;
    if instruction.runnable(&state) {
        instruction.run(state);
        Ok(instruction)
    } else {
        Err(ExecError::UnimplementedOperation)
    }
}

/// How a bounded run ended: the instruction pointer reached the program
/// end after the given number of steps, an unimplemented operation was
/// fetched after the given number of full steps, or the step budget ran
/// out first.
#[derive(Debug, Clone, Copy, PartialEq, Eq, Structural)]
pub enum RunOutcome {
    Halted(usize),
    Unsupported(usize),
    StepLimit,
}

/// The execution driver: while the instruction pointer is before the
/// program end, fetch one instruction, advance the pointer past it, then
/// execute it — in that order, so that branch offsets are relative to the
/// next instruction.  Runs at most `max_steps` instructions.
pub fn run_program(state: &mut State, max_steps: usize) -> (r: RunOutcome)
    requires
        old(state)@.wf(),
    ensures
        final(state)@.wf(),
        ({
            match r {
                RunOutcome::Halted(k) => k <= max_steps && steps_ok(old(state)@, k as nat)
                    && final(state)@ == spec_steps(old(state)@, k as nat) && final(state)@.ip
                    >= final(state)@.program_end,
                RunOutcome::Unsupported(k) => k < max_steps && steps_ok(old(state)@, k as nat)
                    && spec_steps(old(state)@, k as nat).ip < spec_steps(
                    old(state)@,
                    k as nat,
                ).program_end && !step_ok(spec_steps(old(state)@, k as nat)) && final(state)@
                    == step_mid(spec_steps(old(state)@, k as nat)),
                RunOutcome::StepLimit => steps_ok(old(state)@, max_steps as nat) && final(state)@
                    == spec_steps(old(state)@, max_steps as nat) && final(state)@.ip
                    < final(state)@.program_end,
            }
        }),
{
    let mut k: usize = 0;
    while k < max_steps
        invariant
            k <= max_steps,
            state@.wf(),
            steps_ok(old(state)@, k as nat),
            state@ == spec_steps(old(state)@, k as nat),
        decreases max_steps - k,
    {
        if state.instruction_pointer >= state.program_end {
            return RunOutcome::Halted(k);
        }
        let ghost before = state@;
        match step(state) {
            Ok(_) => {
                k = k + 1;
                proof {
                    assert(spec_steps(old(state)@, k as nat) == spec_step(before));
                }
            },
            Err(_) => {
                return RunOutcome::Unsupported(k);
            },
        }
    }
    if state.instruction_pointer >= state.program_end {
        return RunOutcome::Halted(k);
    }
    RunOutcome::StepLimit
}

/// The byte/word aliasing law: writing `v` to AL leaves AH exactly as it
/// was, and AX then reads as AH's old value in the high byte combined with
/// `v` in the low byte.
pub proof fn lemma_byte_word_aliasing(regs: Registers, v: u8)
    ensures
        ({
            let after = regs.spec_set_byte(RegisterByte::AL, v);
            &&& after.spec_byte(RegisterByte::AH) == regs.spec_byte(RegisterByte::AH)
            &&& after.spec_word(RegisterWord::AX) == regs.spec_byte(RegisterByte::AH) * 256 + v
        }),
{
    let hi = regs.ax / 256;
    assert((hi * 256 + v) / 256 == hi && hi * 256 + v < 65536) by (nonlinear_arith)
        requires
            hi < 256,
            v < 256,
    ;
}

/// The flag-computation law: after a subtraction with target value `a` and
/// source value `b`, the zero flag holds exactly when `(a - b) mod 65536`
/// is zero, and the sign flag holds exactly when bit 15 of that result is
/// set.
pub proof fn lemma_sub_flag_computation(pre: StateView, t: RegisterWord, b: u16)
    ensures
        ({
            let a = pre.regs.spec_word(t);
            let result = (a - b) % 65536;
            let after = spec_run_arith(pre, 5, t, b);
            &&& after.regs.flag_zero == (result == 0)
            &&& after.regs.flag_sign == (result / 0x8000 % 2 == 1)
            &&& after.regs.spec_word(t) == result
        }),
{
    let a = pre.regs.spec_word(t);
    let result = (a - b) % 65536;
    assert(0 <= result < 65536);
    assert((result / 0x8000 % 2 == 1) == (result >= 0x8000)) by (nonlinear_arith)
        requires
            0 <= result < 65536,
    ;
}

impl Default for Registers {
    /// A register file with every register zero and both flags clear.
    fn default() -> (r: Registers)
        ensures
            r == Registers::spec_zeroed(),
    {
        Registers {
            ax: 0,
            cx: 0,
            dx: 0,
            bx: 0,
            sp: 0,
            bp: 0,
            si: 0,
            di: 0,
            flag_zero: false,
            flag_sign: false,
        }
    }
}

} // verus!
