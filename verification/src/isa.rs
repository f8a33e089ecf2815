//! Registers, opcodes, condition flags and the bit helpers shared by the
//! decoder and the machine.

use vstd::prelude::*;

verus! {

/// Number of 16-bit words of memory.
pub const MEMORY_MAX: usize = 0x10000;

/// The machine's registers.
#[allow(non_camel_case_types)]
#[derive(Debug, Clone, Copy, PartialEq, Eq, Structural)]
pub enum Register {
    R_R0,
    R_R1,
    R_R2,
    R_R3,
    R_R4,
    R_R5,
    R_R6,
    R_R7,
    R_PC,
    R_COND,
    R_COUNT,
}

impl Register {
    /// The index of the register in the register file.
    pub open spec fn id(self) -> nat {
        match self {
            Register::R_R0 => 0,
            Register::R_R1 => 1,
            Register::R_R2 => 2,
            Register::R_R3 => 3,
            Register::R_R4 => 4,
            Register::R_R5 => 5,
            Register::R_R6 => 6,
            Register::R_R7 => 7,
            Register::R_PC => 8,
            Register::R_COND => 9,
            Register::R_COUNT => 10,
        }
    }

    /// The register with index `i` (meaningful for `i <= 10`).
    pub open spec fn from_id(i: int) -> Register {
        if i == 0 {
            Register::R_R0
        } else if i == 1 {
            Register::R_R1
        } else if i == 2 {
            Register::R_R2
        } else if i == 3 {
            Register::R_R3
        } else if i == 4 {
            Register::R_R4
        } else if i == 5 {
            Register::R_R5
        } else if i == 6 {
            Register::R_R6
        } else if i == 7 {
            Register::R_R7
        } else if i == 8 {
            Register::R_PC
        } else if i == 9 {
            Register::R_COND
        } else {
            Register::R_COUNT
        }
    }

    pub fn as_usize(&self) -> (r: usize)
        ensures
            r == self.id(),
            r <= 10,
    {
        match self {
            Register::R_R0 => 0,
            Register::R_R1 => 1,
            Register::R_R2 => 2,
            Register::R_R3 => 3,
            Register::R_R4 => 4,
            Register::R_R5 => 5,
            Register::R_R6 => 6,
            Register::R_R7 => 7,
            Register::R_PC => 8,
            Register::R_COND => 9,
            Register::R_COUNT => 10,
        }
    }

    /// The register with index `value`; there is none above 10.
    pub fn from(value: u8) -> (r: Register)
        requires
            value <= 10,
        ensures
            r == Register::from_id(value as int),
            r.id() == value,
    {
        match value {
            0 => Register::R_R0,
            1 => Register::R_R1,
            2 => Register::R_R2,
            3 => Register::R_R3,
            4 => Register::R_R4,
            5 => Register::R_R5,
            6 => Register::R_R6,
            7 => Register::R_R7,
            8 => Register::R_PC,
            9 => Register::R_COND,
            _ => Register::R_COUNT,
        }
    }
}

/// Every register is the register of its own index.
pub proof fn lemma_register_id_roundtrip(r: Register)
    ensures
        Register::from_id(r.id() as int) == r,
        r.id() <= 10,
{
}

/// The registers of two different indices differ.
pub proof fn lemma_register_from_id_injective(i: int, j: int)
    requires
        0 <= i <= 10,
        0 <= j <= 10,
        i != j,
    ensures
        Register::from_id(i) != Register::from_id(j),
        Register::from_id(i).id() == i,
{
}

/// The instruction classes, selected by the top four bits of an instruction.
#[allow(non_camel_case_types)]
#[derive(Debug, Clone, Copy, PartialEq, Eq, Structural)]
pub enum OpCode {
    OP_BR,
    OP_ADD,
    OP_LD,
    OP_ST,
    OP_JSR,
    OP_AND,
    OP_LDR,
    OP_STR,
    OP_RTI,
    OP_NOT,
    OP_LDI,
    OP_STI,
    OP_JMP,
    OP_RES,
    OP_LEA,
    OP_TRAP,
    OP_BAD,
}

impl OpCode {
    /// The opcode numbered `value`; numbers above 15 name no opcode.
    pub open spec fn decode(value: int) -> OpCode {
        if value == 0 {
            OpCode::OP_BR
        } else if value == 1 {
            OpCode::OP_ADD
        } else if value == 2 {
            OpCode::OP_LD
        } else if value == 3 {
            OpCode::OP_ST
        } else if value == 4 {
            OpCode::OP_JSR
        } else if value == 5 {
            OpCode::OP_AND
        } else if value == 6 {
            OpCode::OP_LDR
        } else if value == 7 {
            OpCode::OP_STR
        } else if value == 8 {
            OpCode::OP_RTI
        } else if value == 9 {
            OpCode::OP_NOT
        } else if value == 10 {
            OpCode::OP_LDI
        } else if value == 11 {
            OpCode::OP_STI
        } else if value == 12 {
            OpCode::OP_JMP
        } else if value == 13 {
            OpCode::OP_RES
        } else if value == 14 {
            OpCode::OP_LEA
        } else if value == 15 {
            OpCode::OP_TRAP
        } else {
            OpCode::OP_BAD
        }
    }
}

impl From<usize> for OpCode {
    fn from(value: usize) -> (r: Self) {
        match value {
            0 => OpCode::OP_BR,
            1 => OpCode::OP_ADD,
            2 => OpCode::OP_LD,
            3 => OpCode::OP_ST,
            4 => OpCode::OP_JSR,
            5 => OpCode::OP_AND,
            6 => OpCode::OP_LDR,
            7 => OpCode::OP_STR,
            8 => OpCode::OP_RTI,
            9 => OpCode::OP_NOT,
            10 => OpCode::OP_LDI,
            11 => OpCode::OP_STI,
            12 => OpCode::OP_JMP,
            13 => OpCode::OP_RES,
            14 => OpCode::OP_LEA,
            15 => OpCode::OP_TRAP,
            _ => OpCode::OP_BAD,
        }
    }
}

impl vstd::std_specs::convert::FromSpecImpl<usize> for OpCode {
    open spec fn obeys_from_spec() -> bool {
        true
    }

    open spec fn from_spec(v: usize) -> Self {
        OpCode::decode(v as int)
    }
}

/// The condition codes: exactly one of them is held in `R_COND`.
#[allow(non_camel_case_types)]
#[derive(Debug, Clone, Copy, PartialEq, Eq, Structural)]
pub enum ConditionFlag {
    FL_POS,
    FL_ZRO,
    FL_NEG,
}

impl ConditionFlag {
    pub open spec fn spec_bits(self) -> u16 {
        match self {
            ConditionFlag::FL_POS => 1,
            ConditionFlag::FL_ZRO => 2,
            ConditionFlag::FL_NEG => 4,
        }
    }

    /// The value of the flag as it is held in `R_COND`.
    pub fn bits(&self) -> (r: u16)
        ensures
            r == self.spec_bits(),
    {
        match self {
            ConditionFlag::FL_POS => 1,
            ConditionFlag::FL_ZRO => 2,
            ConditionFlag::FL_NEG => 4,
        }
    }
}

/// The condition code that a value sets: zero, negative (bit 15 set) or positive.
pub open spec fn flag_of(v: u16) -> u16 {
    if v == 0 {
        2
    } else if v >= 0x8000 {
        4
    } else {
        1
    }
}

/// A value of `R_COND` that holds exactly one condition code.
pub open spec fn is_condition_code(c: u16) -> bool {
    c == 1 || c == 2 || c == 4
}

/// The two bytes of `v` exchanged.
pub open spec fn swap16_spec(v: u16) -> u16 {
    ((v % 256) * 256 + v / 256) as u16
}

pub fn swap16(v: u16) -> (r: u16)
    ensures
        r == swap16_spec(v),
        r as int == (v % 256) * 256 + v / 256,
{
    let r = (v << 8) | (v >> 8);
    assert(((v << 8) | (v >> 8)) as int == (v % 256) * 256 + v / 256) by (bit_vector);
    r
}

/// Exchanging the bytes twice gives the value back.
pub proof fn lemma_swap16_involutive(v: u16)
    ensures
        swap16_spec(swap16_spec(v)) == v,
{
    let w = swap16_spec(v);
    assert(w as int == (v % 256) * 256 + v / 256);
}

/// `x` with bit `b - 1` copied into every bit from `b` upwards.
pub open spec fn sign_extend_spec(x: u16, b: u8) -> u16
    recommends
        1 <= b <= 15,
{
    if (x >> ((b - 1) as u8)) & 1 == 1 {
        x | (0xFFFFu16 << b)
    } else {
        x
    }
}

/// Copies bit `bit_count - 1` of `x` into every bit from `bit_count` upwards.
/// With `bit_count == 16` there is no bit above to fill: `x` comes back as it
/// is when bit 15 is clear, and the fill would shift out of range when it is set.
pub fn sign_extend(x: u16, bit_count: u8) -> (r: u16)
    requires
        1 <= bit_count <= 16,
        bit_count == 16 ==> x < 0x8000,
    ensures
        bit_count <= 15 ==> r == sign_extend_spec(x, bit_count),
        bit_count == 16 ==> r == x,
{
    let mut x = x;
    assert(x < 0x8000 ==> (x >> 15u8) & 1 == 0) by (bit_vector);
    if ((x >> (bit_count - 1)) & 1) == 1 {
        x |= 0xFFFFu16 << bit_count;
    }
    x
}

/// Sign extension of a `b`-bit field keeps its low `b` bits, and reads as the
/// field's two's-complement value: the field itself when its top bit is clear,
/// the field minus `2^b` (modulo `2^16`) when it is set.
pub proof fn lemma_sign_extend_value(x: u16, b: u8)
    requires
        1 <= b <= 15,
        x < (1u16 << b),
    ensures
        sign_extend_spec(x, b) & !(0xFFFFu16 << b) == x,
        x < (1u16 << ((b - 1) as u8)) ==> sign_extend_spec(x, b) == x,
        x >= (1u16 << ((b - 1) as u8)) ==> sign_extend_spec(x, b) as int == x as int + 0x10000 - (1u32 << b) as int,
{
    let bm1 = (b - 1) as u8;
    assert(sign_extend_spec(x, b) & !(0xFFFFu16 << b) == x) by (bit_vector)
        requires
            1 <= b <= 15,
            bm1 == b - 1,
            x < (1u16 << b),
    ;
    assert(x < (1u16 << bm1) ==> sign_extend_spec(x, b) == x) by (bit_vector)
        requires
            1 <= b <= 15,
            bm1 == b - 1,
            x < (1u16 << b),
    ;
    assert(x >= (1u16 << bm1) ==> sign_extend_spec(x, b) as int == x as int + 0x10000 - (1u32 << b) as int) by (bit_vector)
        requires
            1 <= b <= 15,
            bm1 == b - 1,
            x < (1u16 << b),
    ;
}

/// Sign-extending a value already sign-extended from the same width changes nothing.
pub proof fn lemma_sign_extend_idempotent(x: u16, b: u8)
    requires
        1 <= b <= 15,
    ensures
        sign_extend_spec(sign_extend_spec(x, b), b) == sign_extend_spec(x, b),
{
    let bm1 = (b - 1) as u8;
    assert(sign_extend_spec(sign_extend_spec(x, b), b) == sign_extend_spec(x, b)) by (bit_vector)
        requires
            1 <= b <= 15,
            bm1 == b - 1,
    ;
}

} // verus!
