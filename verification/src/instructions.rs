//! Decoding of instruction words: the bit layouts that the instruction
//! classes share, and the decoded instructions built from them.
//! The LC-3 ISA is described at https://www.jmeiners.com/lc3-vm/supplies/lc3-isa.pdf

use vstd::prelude::*;
use crate::isa::{Register, sign_extend, sign_extend_spec};

verus! {

/// Bits `[11:9]` of an instruction: the destination or source register.
pub open spec fn bits_11_9(i: u16) -> u16 {
    (i >> 9u16) & 0x7
}

/// Bits `[8:6]` of an instruction: the first source or base register.
pub open spec fn bits_8_6(i: u16) -> u16 {
    (i >> 6u16) & 0x7
}

/// Bit 5 of an ADD or AND: 1 selects the immediate operand.
pub open spec fn bit_5(i: u16) -> u16 {
    (i >> 5u16) & 0x1
}

/// Bit 11 of a JSR: 1 for JSR, 0 for JSRR.
pub open spec fn bit_11(i: u16) -> u16 {
    (i >> 11u16) & 0x1
}

/// Bits `[4:0]` of an ADD or AND: the second source register or the immediate.
pub open spec fn bits_4_0(i: u16) -> u16 {
    i & 0x1f
}

/// The immediate operand of an ADD or AND, sign-extended from 5 bits.
pub open spec fn imm5(i: u16) -> u16 {
    sign_extend_spec(i & 0x1f, 5)
}

/// The 6-bit offset of LDR and STR, sign-extended.
pub open spec fn offset6(i: u16) -> u16 {
    sign_extend_spec(i & 0x3f, 6)
}

/// The 9-bit PC offset of BR, LD, LDI, LEA, ST and STI, sign-extended.
pub open spec fn pc_offset9(i: u16) -> u16 {
    sign_extend_spec(i & 0x1ff, 9)
}

/// The 11-bit PC offset of JSR, sign-extended.
pub open spec fn pc_offset11(i: u16) -> u16 {
    sign_extend_spec(i & 0x7ff, 11)
}

/// Every field that a layout extracts fits its width.
pub proof fn lemma_field_bounds(x: u16)
    by (bit_vector)
    ensures
        x & 0x1f <= 0x1f,
        x & 0x3f <= 0x3f,
        x & 0x1ff <= 0x1ff,
        x & 0x7ff <= 0x7ff,
        (x >> 5u16) & 0x1 <= 0x1,
        (x >> 6u16) & 0x7 <= 0x7,
        (x >> 9u16) & 0x7 <= 0x7,
        (x >> 11u16) & 0x1 <= 0x1,
        (x >> 12u16) & 0xf <= 0xf,
{
}

/// ADD and AND share this layout:
/// `opcode[15:12] dr[11:9] sr1[8:6] imm[5] sr2/imm5[4:0]`;
/// `imm` is 0 in register mode, 1 in immediate mode.
#[derive(Debug, Clone, Copy, PartialEq, Eq, Structural)]
pub struct AddInstr(u16);

impl View for AddInstr {
    type V = u16;

    closed spec fn view(&self) -> u16 {
        self.0
    }
}

impl AddInstr {
    pub fn from_raw(value: u16) -> (r: Self)
        ensures
            r@ == value,
    {
        AddInstr(value)
    }

    pub fn get_raw(&self) -> (r: u16)
        ensures
            r == self@,
    {
        self.0
    }

    /// Bits `[4:0]`.
    pub fn value(&self) -> (r: u16)
        ensures
            r == self@ & 0x1f,
            r <= 0x1f,
    {
        let r = self.0 & 0x1f;
        proof {
            lemma_field_bounds(self@);
        }
        r
    }

    /// Bit 5.
    pub fn imm(&self) -> (r: u16)
        ensures
            r == (self@ >> 5u16) & 0x1,
            r <= 0x1,
    {
        let r = (self.0 >> 5u16) & 0x1;
        proof {
            lemma_field_bounds(self@);
        }
        r
    }

    /// Bits `[8:6]`.
    pub fn sr1(&self) -> (r: u16)
        ensures
            r == (self@ >> 6u16) & 0x7,
            r <= 0x7,
    {
        let r = (self.0 >> 6u16) & 0x7;
        proof {
            lemma_field_bounds(self@);
        }
        r
    }

    /// Bits `[11:9]`.
    pub fn dr(&self) -> (r: u16)
        ensures
            r == (self@ >> 9u16) & 0x7,
            r <= 0x7,
    {
        let r = (self.0 >> 9u16) & 0x7;
        proof {
            lemma_field_bounds(self@);
        }
        r
    }

    /// Bits `[15:12]`.
    pub fn opcode(&self) -> (r: u16)
        ensures
            r == (self@ >> 12u16) & 0xf,
            r <= 0xf,
    {
        let r = (self.0 >> 12u16) & 0xf;
        proof {
            lemma_field_bounds(self@);
        }
        r
    }

}


/// The fields of a `AddInstr` are packed from the low bit up and cover the whole
/// word: putting them back in place gives the raw word.
pub proof fn lemma_add_instr_fields_cover(raw: u16)
    ensures
        (raw & 0x1f) | (((raw >> 5u16) & 0x1) << 5u16) | (((raw >> 6u16) & 0x7) << 6u16) | (((raw >> 9u16) & 0x7) << 9u16) | (((raw >> 12u16) & 0xf) << 12u16) == raw,
{
    assert((raw & 0x1f) | (((raw >> 5u16) & 0x1) << 5u16) | (((raw >> 6u16) & 0x7) << 6u16) | (((raw >> 9u16) & 0x7) << 9u16) | (((raw >> 12u16) & 0xf) << 12u16) == raw) by (bit_vector);
}

/// `opcode[15:12] reg[11:9] pcoffset9[8:0]`: the layout of LD, LDI, LEA
/// (destination register) and ST, STI (source register).
#[derive(Debug, Clone, Copy, PartialEq, Eq, Structural)]
pub struct OffsetInstr(u16);

impl View for OffsetInstr {
    type V = u16;

    closed spec fn view(&self) -> u16 {
        self.0
    }
}

impl OffsetInstr {
    pub fn from_raw(value: u16) -> (r: Self)
        ensures
            r@ == value,
    {
        OffsetInstr(value)
    }

    pub fn get_raw(&self) -> (r: u16)
        ensures
            r == self@,
    {
        self.0
    }

    /// Bits `[8:0]`.
    pub fn pc_offset(&self) -> (r: u16)
        ensures
            r == self@ & 0x1ff,
            r <= 0x1ff,
    {
        let r = self.0 & 0x1ff;
        proof {
            lemma_field_bounds(self@);
        }
        r
    }

    /// Bits `[11:9]`.
    pub fn reg(&self) -> (r: u16)
        ensures
            r == (self@ >> 9u16) & 0x7,
            r <= 0x7,
    {
        let r = (self.0 >> 9u16) & 0x7;
        proof {
            lemma_field_bounds(self@);
        }
        r
    }

    /// Bits `[15:12]`.
    pub fn opcode(&self) -> (r: u16)
        ensures
            r == (self@ >> 12u16) & 0xf,
            r <= 0xf,
    {
        let r = (self.0 >> 12u16) & 0xf;
        proof {
            lemma_field_bounds(self@);
        }
        r
    }

}


/// The fields of a `OffsetInstr` are packed from the low bit up and cover the whole
/// word: putting them back in place gives the raw word.
pub proof fn lemma_offset_instr_fields_cover(raw: u16)
    ensures
        (raw & 0x1ff) | (((raw >> 9u16) & 0x7) << 9u16) | (((raw >> 12u16) & 0xf) << 12u16) == raw,
{
    assert((raw & 0x1ff) | (((raw >> 9u16) & 0x7) << 9u16) | (((raw >> 12u16) & 0xf) << 12u16) == raw) by (bit_vector);
}

/// `opcode[15:12] reg[11:9] baser[8:6] offset6[5:0]`: the layout of LDR
/// (destination register) and STR (source register).
#[derive(Debug, Clone, Copy, PartialEq, Eq, Structural)]
pub struct BaseOffsetInstr(u16);

impl View for BaseOffsetInstr {
    type V = u16;

    closed spec fn view(&self) -> u16 {
        self.0
    }
}

impl BaseOffsetInstr {
    pub fn from_raw(value: u16) -> (r: Self)
        ensures
            r@ == value,
    {
        BaseOffsetInstr(value)
    }

    pub fn get_raw(&self) -> (r: u16)
        ensures
            r == self@,
    {
        self.0
    }

    /// Bits `[5:0]`.
    pub fn offset(&self) -> (r: u16)
        ensures
            r == self@ & 0x3f,
            r <= 0x3f,
    {
        let r = self.0 & 0x3f;
        proof {
            lemma_field_bounds(self@);
        }
        r
    }

    /// Bits `[8:6]`.
    pub fn baser(&self) -> (r: u16)
        ensures
            r == (self@ >> 6u16) & 0x7,
            r <= 0x7,
    {
        let r = (self.0 >> 6u16) & 0x7;
        proof {
            lemma_field_bounds(self@);
        }
        r
    }

    /// Bits `[11:9]`.
    pub fn reg(&self) -> (r: u16)
        ensures
            r == (self@ >> 9u16) & 0x7,
            r <= 0x7,
    {
        let r = (self.0 >> 9u16) & 0x7;
        proof {
            lemma_field_bounds(self@);
        }
        r
    }

    /// Bits `[15:12]`.
    pub fn opcode(&self) -> (r: u16)
        ensures
            r == (self@ >> 12u16) & 0xf,
            r <= 0xf,
    {
        let r = (self.0 >> 12u16) & 0xf;
        proof {
            lemma_field_bounds(self@);
        }
        r
    }

}


/// The fields of a `BaseOffsetInstr` are packed from the low bit up and cover the whole
/// word: putting them back in place gives the raw word.
pub proof fn lemma_base_offset_instr_fields_cover(raw: u16)
    ensures
        (raw & 0x3f) | (((raw >> 6u16) & 0x7) << 6u16) | (((raw >> 9u16) & 0x7) << 9u16) | (((raw >> 12u16) & 0xf) << 12u16) == raw,
{
    assert((raw & 0x3f) | (((raw >> 6u16) & 0x7) << 6u16) | (((raw >> 9u16) & 0x7) << 9u16) | (((raw >> 12u16) & 0xf) << 12u16) == raw) by (bit_vector);
}

/// `opcode[15:12] dr[11:9] sr[8:6] unused[5:0]`
#[derive(Debug, Clone, Copy, PartialEq, Eq, Structural)]
pub struct NotInstr(u16);

impl View for NotInstr {
    type V = u16;

    closed spec fn view(&self) -> u16 {
        self.0
    }
}

impl NotInstr {
    pub fn from_raw(value: u16) -> (r: Self)
        ensures
            r@ == value,
    {
        NotInstr(value)
    }

    pub fn get_raw(&self) -> (r: u16)
        ensures
            r == self@,
    {
        self.0
    }

    /// Bits `[5:0]`.
    pub fn unused(&self) -> (r: u16)
        ensures
            r == self@ & 0x3f,
            r <= 0x3f,
    {
        let r = self.0 & 0x3f;
        proof {
            lemma_field_bounds(self@);
        }
        r
    }

    /// Bits `[8:6]`.
    pub fn sr(&self) -> (r: u16)
        ensures
            r == (self@ >> 6u16) & 0x7,
            r <= 0x7,
    {
        let r = (self.0 >> 6u16) & 0x7;
        proof {
            lemma_field_bounds(self@);
        }
        r
    }

    /// Bits `[11:9]`.
    pub fn dr(&self) -> (r: u16)
        ensures
            r == (self@ >> 9u16) & 0x7,
            r <= 0x7,
    {
        let r = (self.0 >> 9u16) & 0x7;
        proof {
            lemma_field_bounds(self@);
        }
        r
    }

    /// Bits `[15:12]`.
    pub fn opcode(&self) -> (r: u16)
        ensures
            r == (self@ >> 12u16) & 0xf,
            r <= 0xf,
    {
        let r = (self.0 >> 12u16) & 0xf;
        proof {
            lemma_field_bounds(self@);
        }
        r
    }

}


/// The fields of a `NotInstr` are packed from the low bit up and cover the whole
/// word: putting them back in place gives the raw word.
pub proof fn lemma_not_instr_fields_cover(raw: u16)
    ensures
        (raw & 0x3f) | (((raw >> 6u16) & 0x7) << 6u16) | (((raw >> 9u16) & 0x7) << 9u16) | (((raw >> 12u16) & 0xf) << 12u16) == raw,
{
    assert((raw & 0x3f) | (((raw >> 6u16) & 0x7) << 6u16) | (((raw >> 9u16) & 0x7) << 9u16) | (((raw >> 12u16) & 0xf) << 12u16) == raw) by (bit_vector);
}

/// `opcode[15:12] jsr[11] pcoffset11[10:0]`; in JSRR mode the base register
/// lives in bits `[8:6]`, that is bits 6..8 of the `offset` field.
#[derive(Debug, Clone, Copy, PartialEq, Eq, Structural)]
pub struct JsrInstr(u16);

impl View for JsrInstr {
    type V = u16;

    closed spec fn view(&self) -> u16 {
        self.0
    }
}

impl JsrInstr {
    pub fn from_raw(value: u16) -> (r: Self)
        ensures
            r@ == value,
    {
        JsrInstr(value)
    }

    pub fn get_raw(&self) -> (r: u16)
        ensures
            r == self@,
    {
        self.0
    }

    /// Bits `[10:0]`.
    pub fn offset(&self) -> (r: u16)
        ensures
            r == self@ & 0x7ff,
            r <= 0x7ff,
    {
        let r = self.0 & 0x7ff;
        proof {
            lemma_field_bounds(self@);
        }
        r
    }

    /// Bit 11.
    pub fn jsr(&self) -> (r: u16)
        ensures
            r == (self@ >> 11u16) & 0x1,
            r <= 0x1,
    {
        let r = (self.0 >> 11u16) & 0x1;
        proof {
            lemma_field_bounds(self@);
        }
        r
    }

    /// Bits `[15:12]`.
    pub fn opcode(&self) -> (r: u16)
        ensures
            r == (self@ >> 12u16) & 0xf,
            r <= 0xf,
    {
        let r = (self.0 >> 12u16) & 0xf;
        proof {
            lemma_field_bounds(self@);
        }
        r
    }

}


/// The fields of a `JsrInstr` are packed from the low bit up and cover the whole
/// word: putting them back in place gives the raw word.
pub proof fn lemma_jsr_instr_fields_cover(raw: u16)
    ensures
        (raw & 0x7ff) | (((raw >> 11u16) & 0x1) << 11u16) | (((raw >> 12u16) & 0xf) << 12u16) == raw,
{
    assert((raw & 0x7ff) | (((raw >> 11u16) & 0x1) << 11u16) | (((raw >> 12u16) & 0xf) << 12u16) == raw) by (bit_vector);
}

/// `opcode[15:12] nzp[11:9] pcoffset9[8:0]`
#[derive(Debug, Clone, Copy, PartialEq, Eq, Structural)]
pub struct BrInstr(u16);

impl View for BrInstr {
    type V = u16;

    closed spec fn view(&self) -> u16 {
        self.0
    }
}

impl BrInstr {
    pub fn from_raw(value: u16) -> (r: Self)
        ensures
            r@ == value,
    {
        BrInstr(value)
    }

    pub fn get_raw(&self) -> (r: u16)
        ensures
            r == self@,
    {
        self.0
    }

    /// Bits `[8:0]`.
    pub fn pc_offset(&self) -> (r: u16)
        ensures
            r == self@ & 0x1ff,
            r <= 0x1ff,
    {
        let r = self.0 & 0x1ff;
        proof {
            lemma_field_bounds(self@);
        }
        r
    }

    /// Bits `[11:9]`.
    pub fn nzp(&self) -> (r: u16)
        ensures
            r == (self@ >> 9u16) & 0x7,
            r <= 0x7,
    {
        let r = (self.0 >> 9u16) & 0x7;
        proof {
            lemma_field_bounds(self@);
        }
        r
    }

    /// Bits `[15:12]`.
    pub fn opcode(&self) -> (r: u16)
        ensures
            r == (self@ >> 12u16) & 0xf,
            r <= 0xf,
    {
        let r = (self.0 >> 12u16) & 0xf;
        proof {
            lemma_field_bounds(self@);
        }
        r
    }

}


/// The fields of a `BrInstr` are packed from the low bit up and cover the whole
/// word: putting them back in place gives the raw word.
pub proof fn lemma_br_instr_fields_cover(raw: u16)
    ensures
        (raw & 0x1ff) | (((raw >> 9u16) & 0x7) << 9u16) | (((raw >> 12u16) & 0xf) << 12u16) == raw,
{
    assert((raw & 0x1ff) | (((raw >> 9u16) & 0x7) << 9u16) | (((raw >> 12u16) & 0xf) << 12u16) == raw) by (bit_vector);
}

/// `opcode[15:12] pad[11:9] baser[8:6] unused[5:0]`
#[derive(Debug, Clone, Copy, PartialEq, Eq, Structural)]
pub struct JmpInstr(u16);

impl View for JmpInstr {
    type V = u16;

    closed spec fn view(&self) -> u16 {
        self.0
    }
}

impl JmpInstr {
    pub fn from_raw(value: u16) -> (r: Self)
        ensures
            r@ == value,
    {
        JmpInstr(value)
    }

    pub fn get_raw(&self) -> (r: u16)
        ensures
            r == self@,
    {
        self.0
    }

    /// Bits `[5:0]`.
    pub fn unused(&self) -> (r: u16)
        ensures
            r == self@ & 0x3f,
            r <= 0x3f,
    {
        let r = self.0 & 0x3f;
        proof {
            lemma_field_bounds(self@);
        }
        r
    }

    /// Bits `[8:6]`.
    pub fn baser(&self) -> (r: u16)
        ensures
            r == (self@ >> 6u16) & 0x7,
            r <= 0x7,
    {
        let r = (self.0 >> 6u16) & 0x7;
        proof {
            lemma_field_bounds(self@);
        }
        r
    }

    /// Bits `[11:9]`.
    pub fn pad(&self) -> (r: u16)
        ensures
            r == (self@ >> 9u16) & 0x7,
            r <= 0x7,
    {
        let r = (self.0 >> 9u16) & 0x7;
        proof {
            lemma_field_bounds(self@);
        }
        r
    }

    /// Bits `[15:12]`.
    pub fn opcode(&self) -> (r: u16)
        ensures
            r == (self@ >> 12u16) & 0xf,
            r <= 0xf,
    {
        let r = (self.0 >> 12u16) & 0xf;
        proof {
            lemma_field_bounds(self@);
        }
        r
    }

}


/// The fields of a `JmpInstr` are packed from the low bit up and cover the whole
/// word: putting them back in place gives the raw word.
pub proof fn lemma_jmp_instr_fields_cover(raw: u16)
    ensures
        (raw & 0x3f) | (((raw >> 6u16) & 0x7) << 6u16) | (((raw >> 9u16) & 0x7) << 9u16) | (((raw >> 12u16) & 0xf) << 12u16) == raw,
{
    assert((raw & 0x3f) | (((raw >> 6u16) & 0x7) << 6u16) | (((raw >> 9u16) & 0x7) << 9u16) | (((raw >> 12u16) & 0xf) << 12u16) == raw) by (bit_vector);
}

/// LDI instruction.
#[derive(Debug, PartialEq, Eq, Structural)]
pub struct LdiInstruction {
    pub destination_register: Register,
    pub pc_offset: u16,
}

impl LdiInstruction {
    pub fn new(instr: u16) -> (r: Self)
        ensures
            r.destination_register == Register::from_id(bits_11_9(instr) as int),
            r.destination_register.id() == bits_11_9(instr),
            r.pc_offset == pc_offset9(instr),
    {
        let decoded = OffsetInstr::from_raw(instr);
        Self {
            destination_register: Register::from(decoded.reg() as u8),
            pc_offset: sign_extend(decoded.pc_offset(), 9),
        }
    }
}

/// LD instruction.
#[derive(Debug, PartialEq, Eq, Structural)]
pub struct LdInstruction {
    pub destination_register: Register,
    pub pc_offset: u16,
}

impl LdInstruction {
    pub fn new(instr: u16) -> (r: Self)
        ensures
            r.destination_register == Register::from_id(bits_11_9(instr) as int),
            r.destination_register.id() == bits_11_9(instr),
            r.pc_offset == pc_offset9(instr),
    {
        let decoded = OffsetInstr::from_raw(instr);
        Self {
            destination_register: Register::from(decoded.reg() as u8),
            pc_offset: sign_extend(decoded.pc_offset(), 9),
        }
    }
}

/// ST instruction.
#[derive(Debug, PartialEq, Eq, Structural)]
pub struct StInstruction {
    pub source_register: Register,
    pub pc_offset: u16,
}

impl StInstruction {
    pub fn new(instr: u16) -> (r: Self)
        ensures
            r.source_register == Register::from_id(bits_11_9(instr) as int),
            r.source_register.id() == bits_11_9(instr),
            r.pc_offset == pc_offset9(instr),
    {
        let decoded = OffsetInstr::from_raw(instr);
        Self {
            source_register: Register::from(decoded.reg() as u8),
            pc_offset: sign_extend(decoded.pc_offset(), 9),
        }
    }
}

/// STI instruction.
#[derive(Debug, PartialEq, Eq, Structural)]
pub struct StiInstruction {
    pub source_register: Register,
    pub pc_offset: u16,
}

impl StiInstruction {
    pub fn new(instr: u16) -> (r: Self)
        ensures
            r.source_register == Register::from_id(bits_11_9(instr) as int),
            r.source_register.id() == bits_11_9(instr),
            r.pc_offset == pc_offset9(instr),
    {
        let decoded = OffsetInstr::from_raw(instr);
        Self {
            source_register: Register::from(decoded.reg() as u8),
            pc_offset: sign_extend(decoded.pc_offset(), 9),
        }
    }
}

/// LEA instruction.
#[derive(Debug, PartialEq, Eq, Structural)]
pub struct LeaInstruction {
    pub destination_register: Register,
    pub pc_offset: u16,
}

impl LeaInstruction {
    pub fn new(instr: u16) -> (r: Self)
        ensures
            r.destination_register == Register::from_id(bits_11_9(instr) as int),
            r.destination_register.id() == bits_11_9(instr),
            r.pc_offset == pc_offset9(instr),
    {
        let decoded = OffsetInstr::from_raw(instr);
        Self {
            destination_register: Register::from(decoded.reg() as u8),
            pc_offset: sign_extend(decoded.pc_offset(), 9),
        }
    }
}

/// LDR instruction.
#[derive(Debug, PartialEq, Eq, Structural)]
pub struct LdrInstruction {
    pub destination_register: Register,
    pub base_register: Register,
    pub offset: u16,
}

impl LdrInstruction {
    pub fn new(instr: u16) -> (r: Self)
        ensures
            r.destination_register == Register::from_id(bits_11_9(instr) as int),
            r.destination_register.id() == bits_11_9(instr),
            r.base_register == Register::from_id(bits_8_6(instr) as int),
            r.base_register.id() == bits_8_6(instr),
            r.offset == offset6(instr),
    {
        let decoded = BaseOffsetInstr::from_raw(instr);
        Self {
            destination_register: Register::from(decoded.reg() as u8),
            base_register: Register::from(decoded.baser() as u8),
            offset: sign_extend(decoded.offset(), 6),
        }
    }
}

/// STR instruction.
#[derive(Debug, PartialEq, Eq, Structural)]
pub struct StrInstruction {
    pub source_register: Register,
    pub base_register: Register,
    pub offset: u16,
}

impl StrInstruction {
    pub fn new(instr: u16) -> (r: Self)
        ensures
            r.source_register == Register::from_id(bits_11_9(instr) as int),
            r.source_register.id() == bits_11_9(instr),
            r.base_register == Register::from_id(bits_8_6(instr) as int),
            r.base_register.id() == bits_8_6(instr),
            r.offset == offset6(instr),
    {
        let decoded = BaseOffsetInstr::from_raw(instr);
        Self {
            source_register: Register::from(decoded.reg() as u8),
            base_register: Register::from(decoded.baser() as u8),
            offset: sign_extend(decoded.offset(), 6),
        }
    }
}

/// The second operand of an ADD or AND.
#[derive(Debug, Clone, Copy, PartialEq, Eq, Structural)]
pub enum AddressingMode {
    Reg { source_register_2: Register },
    Imm(u16),
}

/// An ADD or AND instruction.
#[derive(Debug, PartialEq, Eq, Structural)]
pub struct AddAndInstruction {
    pub destination_register: Register,
    pub source_register_1: Register,
    pub mode: AddressingMode,
}

/// In register mode the five low bits of an ADD or AND must name a register.
pub open spec fn add_and_decodable(instruction: u16) -> bool {
    bit_5(instruction) == 0 ==> bits_4_0(instruction) <= 10
}

impl AddAndInstruction {
    pub fn new(instruction: u16) -> (r: Self)
        requires
            add_and_decodable(instruction),
        ensures
            r.destination_register == Register::from_id(bits_11_9(instruction) as int),
            r.destination_register.id() == bits_11_9(instruction),
            r.source_register_1 == Register::from_id(bits_8_6(instruction) as int),
            r.source_register_1.id() == bits_8_6(instruction),
            r.mode == (if bit_5(instruction) == 0 {
                AddressingMode::Reg {
                    source_register_2: Register::from_id(bits_4_0(instruction) as int),
                }
            } else {
                AddressingMode::Imm(imm5(instruction))
            }),
    {
        let instr = AddInstr::from_raw(instruction);
        let mode = if instr.imm() == 0 {
            AddressingMode::Reg { source_register_2: Register::from(instr.value() as u8) }
        } else {
            AddressingMode::Imm(sign_extend(instr.value(), 5))
        };

        Self {
            destination_register: Register::from(instr.dr() as u8),
            source_register_1: Register::from(instr.sr1() as u8),
            mode,
        }
    }
}

/// A NOT instruction.
#[derive(Debug, PartialEq, Eq, Structural)]
pub struct NotInstruction {
    pub destination_register: Register,
    pub source_register: Register,
}

impl NotInstruction {
    pub fn new(instr: u16) -> (r: Self)
        ensures
            r.destination_register == Register::from_id(bits_11_9(instr) as int),
            r.destination_register.id() == bits_11_9(instr),
            r.source_register == Register::from_id(bits_8_6(instr) as int),
            r.source_register.id() == bits_8_6(instr),
    {
        let decoded = NotInstr::from_raw(instr);
        Self {
            destination_register: Register::from(decoded.dr() as u8),
            source_register: Register::from(decoded.sr() as u8),
        }
    }
}

/// A JSR or JSRR instruction.
#[derive(Debug, PartialEq, Eq, Structural)]
pub struct JsrInstruction {
    /// The PC offset of JSR, sign-extended from 11 bits.
    pub offset: u16,
    /// 1 for JSR (PC-relative), 0 for JSRR (through a base register).
    pub bit_11: u8,
    /// The base register of JSRR.
    pub base_register: Register,
}

impl JsrInstruction {
    pub fn new(instr: u16) -> (r: Self)
        ensures
            r.offset == pc_offset11(instr),
            r.bit_11 == bit_11(instr),
            r.base_register == Register::from_id(bits_8_6(instr) as int),
            r.base_register.id() == bits_8_6(instr),
    {
        let decoded = JsrInstr::from_raw(instr);
        let base = (decoded.offset() >> 6u16) & 0x7;
        assert(((instr & 0x7ff) >> 6u16) & 0x7 == (instr >> 6u16) & 0x7 && ((instr & 0x7ff) >> 6u16) & 0x7 <= 7) by (bit_vector);
        Self {
            bit_11: decoded.jsr() as u8,
            offset: sign_extend(decoded.offset(), 11),
            base_register: Register::from(base as u8),
        }
    }
}

} // verus!
