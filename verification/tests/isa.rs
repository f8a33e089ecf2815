use lc3_vm::instructions::{
    AddAndInstruction, AddInstr, AddressingMode, BaseOffsetInstr, BrInstr, JmpInstr, JsrInstr,
    JsrInstruction, NotInstr, OffsetInstr,
};
use lc3_vm::isa::{sign_extend, swap16, ConditionFlag, OpCode, Register};

#[test]
fn swap16_exchanges_bytes_and_is_its_own_inverse() {
    assert_eq!(swap16(0x1234), 0x3412);
    assert_eq!(swap16(0x00FF), 0xFF00);
    assert_eq!(swap16(swap16(0xBEEF)), 0xBEEF);
}

#[test]
fn sign_extend_negative_and_positive_fields() {
    assert_eq!(sign_extend(0x1F, 5), 0xFFFF);
    assert_eq!(sign_extend(0x10, 5), 0xFFF0);
    assert_eq!(sign_extend(0x0F, 5), 0x000F);
    assert_eq!(sign_extend(0x1FF, 9), 0xFFFF);
    assert_eq!(sign_extend(0x100, 9), 0xFF00);
    assert_eq!(sign_extend(0x400, 11), 0xFC00);
    assert_eq!(sign_extend(0x3F, 6), 0xFFFF);
}

#[test]
fn sign_extend_full_width_with_clear_top_bit() {
    assert_eq!(sign_extend(0x7FFF, 16), 0x7FFF);
    assert_eq!(sign_extend(0, 16), 0);
}

#[test]
fn sign_extend_is_idempotent() {
    let once = sign_extend(0x12, 5);
    assert_eq!(sign_extend(once, 5), once);
}

#[test]
fn opcode_from_number() {
    assert_eq!(OpCode::from(0usize), OpCode::OP_BR);
    assert_eq!(OpCode::from(9usize), OpCode::OP_NOT);
    assert_eq!(OpCode::from(15usize), OpCode::OP_TRAP);
    assert_eq!(OpCode::from(16usize), OpCode::OP_BAD);
}

#[test]
fn register_index_roundtrip() {
    assert_eq!(Register::R_COND.as_usize(), 9);
    assert_eq!(Register::from(10), Register::R_COUNT);
    assert_eq!(Register::from(Register::R_PC.as_usize() as u8), Register::R_PC);
}

#[test]
fn condition_flag_bits() {
    assert_eq!(ConditionFlag::FL_POS.bits(), 1);
    assert_eq!(ConditionFlag::FL_ZRO.bits(), 2);
    assert_eq!(ConditionFlag::FL_NEG.bits(), 4);
}

#[test]
fn add_layout_fields_cover_the_word() {
    let raw: u16 = 0x1465;
    let a = AddInstr::from_raw(raw);
    assert_eq!(a.get_raw(), raw);
    let back = a.value() | (a.imm() << 5) | (a.sr1() << 6) | (a.dr() << 9) | (a.opcode() << 12);
    assert_eq!(back, raw);
}

#[test]
fn other_layouts_fields_cover_the_word() {
    let raw: u16 = 0xB7A9;
    let o = OffsetInstr::from_raw(raw);
    assert_eq!(o.pc_offset() | (o.reg() << 9) | (o.opcode() << 12), raw);
    let b = BaseOffsetInstr::from_raw(raw);
    assert_eq!(b.offset() | (b.baser() << 6) | (b.reg() << 9) | (b.opcode() << 12), raw);
    let n = NotInstr::from_raw(raw);
    assert_eq!(n.unused() | (n.sr() << 6) | (n.dr() << 9) | (n.opcode() << 12), raw);
    let j = JsrInstr::from_raw(raw);
    assert_eq!(j.offset() | (j.jsr() << 11) | (j.opcode() << 12), raw);
    let br = BrInstr::from_raw(raw);
    assert_eq!(br.pc_offset() | (br.nzp() << 9) | (br.opcode() << 12), raw);
    let jmp = JmpInstr::from_raw(raw);
    assert_eq!(jmp.unused() | (jmp.baser() << 6) | (jmp.pad() << 9) | (jmp.opcode() << 12), raw);
}

#[test]
fn add_immediate_is_sign_extended() {
    // ADD R2, R1, #-1
    let add = AddAndInstruction::new(0x147F);
    assert_eq!(add.destination_register, Register::R_R2);
    assert_eq!(add.source_register_1, Register::R_R1);
    assert_eq!(add.mode, AddressingMode::Imm(0xFFFF));
}

#[test]
fn jsr_and_jsrr_decode() {
    // JSR #5
    let jsr = JsrInstruction::new(0x4805);
    assert_eq!(jsr.bit_11, 1);
    assert_eq!(jsr.offset, 5);
    // JSRR R2
    let jsrr = JsrInstruction::new(0x4080);
    assert_eq!(jsrr.bit_11, 0);
    assert_eq!(jsrr.base_register, Register::R_R2);
    // JSR #-1
    let back = JsrInstruction::new(0x4FFF);
    assert_eq!(back.offset, 0xFFFF);
}
