//! A decoder, disassembler and interpreter for a subset of the Intel 8086
//! instruction set.
//!
//! Raw machine-code bytes are decoded into structured [`Instruction`] values
//! (module [`decode`]), rendered as assembly text (module [`render`]),
//! re-encoded into bytes (module [`encode`]), or executed against a simulated
//! processor state (module [`exec`]).  A second, smaller disassembler that
//! reads its input bit by bit lives in module [`dis`].
use vstd::prelude::*;

pub mod decode;
pub mod dis;
pub mod encode;
pub mod exec;
pub mod render;

verus! {

/// One of the eight byte-sized 8086 registers, in encoding order:
/// register code 0 is AL, code 7 is BH.
#[derive(Debug, Clone, Copy, PartialEq, Eq, Structural)]
pub enum RegisterByte {
    AL,
    CL,
    DL,
    BL,
    AH,
    CH,
    DH,
    BH,
}

/// One of the eight word-sized 8086 registers, in encoding order:
/// register code 0 is AX, code 7 is DI.
#[derive(Debug, Clone, Copy, PartialEq, Eq, Structural)]
pub enum RegisterWord {
    AX,
    CX,
    DX,
    BX,
    SP,
    BP,
    SI,
    DI,
}

/// The addressing-mode class taken from the top two bits of a mod-reg-r/m
/// byte: a memory operand with no displacement, with a one-byte displacement,
/// with a two-byte displacement, or a plain register operand.
#[derive(Debug, Clone, Copy, PartialEq, Eq, Structural)]
pub enum Mode {
    EffectiveAdress,
    EffectiveAdressByte,
    EffectiveAdressWord,
    RegisterToRegister,
}

impl Mode {
    /// The two-bit code this addressing-mode class is encoded as.
    pub open spec fn code(self) -> u8 {
        match self {
            Mode::EffectiveAdress => 0,
            Mode::EffectiveAdressByte => 1,
            Mode::EffectiveAdressWord => 2,
            Mode::RegisterToRegister => 3,
        }
    }

    /// The addressing-mode class selected by a two-bit code.
    pub open spec fn spec_from_code(code: u8) -> Mode {
        if code == 0 {
            Mode::EffectiveAdress
        } else if code == 1 {
            Mode::EffectiveAdressByte
        } else if code == 2 {
            Mode::EffectiveAdressWord
        } else {
            Mode::RegisterToRegister
        }
    }

    /// Total mapping from a two-bit code to its addressing-mode class.
    pub fn from_code(code: u8) -> (m: Mode)
        requires
            code < 4,
        ensures
            m == Mode::spec_from_code(code),
            m.code() == code,
    {
        if code == 0 {
            Mode::EffectiveAdress
        } else if code == 1 {
            Mode::EffectiveAdressByte
        } else if code == 2 {
            Mode::EffectiveAdressWord
        } else {
            Mode::RegisterToRegister
        }
    }
}

/// A memory operand: a base-register-combination index (three bits), the
/// addressing-mode class it was decoded under, and a 16-bit displacement.
///
/// When `mode` is [`Mode::EffectiveAdress`] and `index` is 6, the operand is a
/// direct address: no base register is involved and `displacement` is the
/// full 16-bit absolute address.
#[derive(Debug, Clone, Copy, PartialEq, Eq, Structural)]
pub struct EffectiveAdress {
    pub index: u8,
    pub mode: Mode,
    pub displacement: u16,
}

impl EffectiveAdress {
    /// A memory operand is well formed when its base-index fits in three
    /// bits, it is not a register operand, and its displacement fits the
    /// width its addressing-mode class stores.
    pub open spec fn wf(self) -> bool {
        &&& self.index < 8
        &&& self.mode != Mode::RegisterToRegister
        &&& self.mode == Mode::EffectiveAdress ==> (self.index == 6 || self.displacement == 0)
        &&& self.mode == Mode::EffectiveAdressByte ==> self.displacement < 256
    }

    /// Whether this operand is the direct-address special case.
    pub open spec fn is_direct(self) -> bool {
        self.mode == Mode::EffectiveAdress && self.index == 6
    }
}

/// An operand location: a byte register, a word register, or a memory
/// operand.
#[derive(Debug, Clone, Copy, PartialEq, Eq, Structural)]
pub enum Place {
    Byte(RegisterByte),
    Word(RegisterWord),
    Adress(EffectiveAdress),
}

impl Place {
    /// A place is well formed when a memory operand inside it is.
    pub open spec fn wf(self) -> bool {
        match self {
            Place::Adress(ea) => ea.wf(),
            _ => true,
        }
    }

    /// Whether this place is a register of the width selected by `word_mode`.
    pub open spec fn is_register(self, word_mode: bool) -> bool {
        match self {
            Place::Byte(_) => !word_mode,
            Place::Word(_) => word_mode,
            Place::Adress(_) => false,
        }
    }

    /// Decides well-formedness.
    pub fn is_wf(&self) -> (r: bool)
        ensures
            r == self.wf(),
    {
        match self {
            Place::Adress(ea) => {
                ea.index < 8 && !matches!(ea.mode, Mode::RegisterToRegister) && (!matches!(
                    ea.mode,
                    Mode::EffectiveAdress,
                ) || ea.index == 6 || ea.displacement == 0) && (!matches!(
                    ea.mode,
                    Mode::EffectiveAdressByte,
                ) || ea.displacement < 256)
            },
            _ => true,
        }
    }
}

/// The byte register selected by a three-bit register code.
pub open spec fn spec_register_byte(code: u8) -> RegisterByte {
    if code == 0 {
        RegisterByte::AL
    } else if code == 1 {
        RegisterByte::CL
    } else if code == 2 {
        RegisterByte::DL
    } else if code == 3 {
        RegisterByte::BL
    } else if code == 4 {
        RegisterByte::AH
    } else if code == 5 {
        RegisterByte::CH
    } else if code == 6 {
        RegisterByte::DH
    } else {
        RegisterByte::BH
    }
}

/// The word register selected by a three-bit register code.
pub open spec fn spec_register_word(code: u8) -> RegisterWord {
    if code == 0 {
        RegisterWord::AX
    } else if code == 1 {
        RegisterWord::CX
    } else if code == 2 {
        RegisterWord::DX
    } else if code == 3 {
        RegisterWord::BX
    } else if code == 4 {
        RegisterWord::SP
    } else if code == 5 {
        RegisterWord::BP
    } else if code == 6 {
        RegisterWord::SI
    } else {
        RegisterWord::DI
    }
}

/// The register place selected by a width flag and a three-bit register
/// code.
pub open spec fn spec_register(word_mode: bool, code: u8) -> Place {
    if word_mode {
        Place::Word(spec_register_word(code))
    } else {
        Place::Byte(spec_register_byte(code))
    }
}

impl RegisterByte {
    /// The byte register a three-bit code names, or `None` when the value
    /// does not fit in three bits.
    pub fn from_octal(octal: u8) -> (r: Option<RegisterByte>)
        ensures
            r == if octal < 8 {
                Some(spec_register_byte(octal))
            } else {
                None::<RegisterByte>
            },
    {
        match octal {
            0 => Some(RegisterByte::AL),
            1 => Some(RegisterByte::CL),
            2 => Some(RegisterByte::DL),
            3 => Some(RegisterByte::BL),
            4 => Some(RegisterByte::AH),
            5 => Some(RegisterByte::CH),
            6 => Some(RegisterByte::DH),
            7 => Some(RegisterByte::BH),
            _ => None,
        }
    }
}

impl RegisterWord {
    /// The word register a three-bit code names, or `None` when the value
    /// does not fit in three bits.
    pub fn from_octal(octal: u8) -> (r: Option<RegisterWord>)
        ensures
            r == if octal < 8 {
                Some(spec_register_word(octal))
            } else {
                None::<RegisterWord>
            },
    {
        match octal {
            0 => Some(RegisterWord::AX),
            1 => Some(RegisterWord::CX),
            2 => Some(RegisterWord::DX),
            3 => Some(RegisterWord::BX),
            4 => Some(RegisterWord::SP),
            5 => Some(RegisterWord::BP),
            6 => Some(RegisterWord::SI),
            7 => Some(RegisterWord::DI),
            _ => None,
        }
    }
}

/// One decoded 8086 instruction.  Decoding never fails: a leading byte that
/// matches no supported pattern becomes [`Instruction::Unrecognized`].
#[derive(Debug, Clone, Copy, PartialEq, Eq, Structural)]
pub enum Instruction {
    /// Register/memory-with-register arithmetic; `op` is the three-bit
    /// operation selector (0 add, 1 or, 2 adc, 3 sbb, 4 and, 5 sub, 6 xor,
    /// 7 cmp).
    Arithmetic { op: u8, target: Place, source: Place },
    /// Arithmetic with an immediate operand and the accumulator (AL or AX)
    /// as the target.
    ArithmeticImmediate { op: u8, target: Place, immediate: u16 },
    /// Arithmetic with an immediate operand and a register-or-memory target.
    ArithmeticImmediateToMemory { word_mode: bool, op: u8, target: Place, immediate: u16 },
    /// A conditional jump; `marker` is the raw opcode byte, which carries the
    /// condition code and its negation bit.
    Jump { marker: u8, offset: i8 },
    /// A loop-family instruction; `marker` is the raw opcode byte.
    Loop { marker: u8, offset: i8 },
    /// A register/memory to/from register move.
    Mov { target: Place, source: Place },
    /// An immediate-to-register move.
    MovImmediate { target: Place, immediate: u16 },
    /// An immediate-to-register-or-memory move.
    MovImmediateToMemory { word_mode: bool, target: Place, immediate: u16 },
    /// A leading byte that matches no supported encoding.
    Unrecognized(u8),
}

impl Instruction {
    /// An instruction is well formed when its operation selector fits in
    /// three bits and its operands are well formed; the decoder only
    /// produces well-formed instructions.
    pub open spec fn wf(self) -> bool {
        match self {
            Instruction::Arithmetic { op, target, source } => op < 8 && target.wf() && source.wf(),
            Instruction::ArithmeticImmediate { op, target, .. } => op < 8 && target.wf(),
            Instruction::ArithmeticImmediateToMemory { op, target, .. } => op < 8 && target.wf(),
            Instruction::Jump { .. } => true,
            Instruction::Loop { .. } => true,
            Instruction::Mov { target, source } => target.wf() && source.wf(),
            Instruction::MovImmediate { target, .. } => target.wf(),
            Instruction::MovImmediateToMemory { target, .. } => target.wf(),
            Instruction::Unrecognized(_) => true,
        }
    }

    /// The place this instruction writes (or, for compares, evaluates), if
    /// it has one.
    pub open spec fn spec_target(self) -> Option<Place> {
        match self {
            Instruction::Arithmetic { target, .. } => Some(target),
            Instruction::ArithmeticImmediate { target, .. } => Some(target),
            Instruction::ArithmeticImmediateToMemory { target, .. } => Some(target),
            Instruction::Mov { target, .. } => Some(target),
            Instruction::MovImmediate { target, .. } => Some(target),
            Instruction::MovImmediateToMemory { target, .. } => Some(target),
            _ => None,
        }
    }

    /// Returns the place this instruction writes, if it has one.
    pub fn target(&self) -> (t: Option<Place>)
        ensures
            t == self.spec_target(),
    {
        match self {
            Instruction::Arithmetic { target, .. } => Some(*target),
            Instruction::ArithmeticImmediate { target, .. } => Some(*target),
            Instruction::ArithmeticImmediateToMemory { target, .. } => Some(*target),
            Instruction::Mov { target, .. } => Some(*target),
            Instruction::MovImmediate { target, .. } => Some(*target),
            Instruction::MovImmediateToMemory { target, .. } => Some(*target),
            _ => None,
        }
    }
}

} // verus!
