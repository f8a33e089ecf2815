use lc3_vm::instructions::{
    AddAndInstruction, AddInstr, AddressingMode, JsrInstruction, LdInstruction, LdiInstruction,
    LdrInstruction, LeaInstruction, NotInstruction, OffsetInstr, StInstruction, StiInstruction,
    StrInstruction,
};
use lc3_vm::isa::{sign_extend, OpCode, Register};

#[test]
fn test_packed_bits_add_instr_imm_addr_mode() {
    let instruction: u16 = 0x1465; // ADD R2, R1, imm5(5)
    let add = AddInstr::from_raw(instruction);

    println!("{:?}", &add);
    assert_eq!(OpCode::OP_ADD, OpCode::from(add.opcode() as usize));
    assert_eq!(Register::R_R2, Register::from(add.dr() as u8));
    assert_eq!(Register::R_R1, Register::from(add.sr1() as u8));
    assert_eq!(1, add.imm());
    assert_eq!(5, add.value());
}

#[test]
fn test_add_instruction_register_addressing_mode() {
    let instruction: u16 = 0x1042; // ADD R0, R1, R2
    let add = AddAndInstruction::new(instruction);

    println!("{:?}", &add);
    assert_eq!(Register::R_R0, add.destination_register);
    assert_eq!(Register::R_R1, add.source_register_1);
    assert_eq!(
        add.mode,
        AddressingMode::Reg {
            source_register_2: Register::R_R2
        }
    );
}

#[test]
fn test_add_instruction_immediate_addressing_mode() {
    let instruction: u16 = 0x1465; // ADD dst=R2, sr1=R1, imm5=5
    let add = AddAndInstruction::new(instruction);

    println!("{:?}", &add);
    assert_eq!(Register::R_R2, add.destination_register);
    assert_eq!(Register::R_R1, add.source_register_1);
    assert_eq!(add.mode, AddressingMode::Imm(5));
}

#[test]
fn test_ldi_instruction_initializer() {
    let instruction: u16 = 0xA6D5;
    let ldi = OffsetInstr::from_raw(instruction);
    println!("{:?}", &ldi);

    assert_eq!(Register::R_R3, Register::from(ldi.reg() as u8));
    assert_eq!(213, sign_extend(ldi.pc_offset(), 9));
}

#[test]
fn test_ldi_instruction_new() {
    let instruction: u16 = 0xA6D5;
    let ldi = LdiInstruction::new(instruction);

    assert_eq!(Register::R_R3, ldi.destination_register);
    assert_eq!(213, ldi.pc_offset);
}

#[test]
fn test_ld_instruction_initializer() {
    // 0010     001 000000011
    // opcode   DR(Register 1)    pc_offset(3)
    let instruction: u16 = 0x2203;
    let ld = LdInstruction::new(instruction);

    println!("{:?}", &ld);
    assert_eq!(Register::R_R1, ld.destination_register);
    assert_eq!(3, ld.pc_offset);
}

#[test]
fn test_ldr_instruction_initializer() {
    let instruction: u16 = 0x628F;
    let ldr = LdrInstruction::new(instruction);

    println!("{:?}", &ldr);
    assert_eq!(Register::R_R1, ldr.destination_register);
    assert_eq!(Register::R_R2, ldr.base_register);
    assert_eq!(15, ldr.offset);
}

#[test]
fn test_st_instruction_initializer() {
    // 0011     010 000001010
    // opcode   SR(Register 2)    pc_offset(10)
    let instruction: u16 = 0x340A;
    let st = StInstruction::new(instruction);

    println!("{:?}", &st);
    assert_eq!(Register::R_R2, st.source_register);
    assert_eq!(10, st.pc_offset);
}

#[test]
fn test_sti_instruction_initializer() {
    // 1011     010 000001010
    // opcode   SR(Register 2)    pc_offset(10)
    let instruction: u16 = 0x340A;
    let st = StiInstruction::new(instruction);

    println!("{:?}", &st);
    assert_eq!(Register::R_R2, st.source_register);
    assert_eq!(10, st.pc_offset);
}

#[test]
fn test_str_instruction_initializer() {
    let instruction: u16 = 0x744D;
    let str = StrInstruction::new(instruction);

    println!("{:?}", &str);
    assert_eq!(Register::R_R2, str.source_register);
    assert_eq!(Register::R_R1, str.base_register);
    assert_eq!(13, str.offset);
}

#[test]
fn test_lea_instruction_initializer() {
    let instruction: u16 = 0xE20F;
    let lea = LeaInstruction::new(instruction);

    println!("{:?}", &lea);
    assert_eq!(Register::R_R1, lea.destination_register);
    assert_eq!(15, lea.pc_offset);
}

#[test]
fn test_not_instruction_initializer() {
    let instruction: u16 = 0x9283;
    let not = NotInstruction::new(instruction);

    println!("{:?}", &not);
    assert_eq!(Register::R_R1, not.destination_register);
    assert_eq!(Register::R_R2, not.source_register);
}

#[test]
fn test_jsr_instruction_initializer() {
    let instruction: u16 = 0x400F;
    let jsr = JsrInstruction::new(instruction);

    println!("{:?}", &jsr);
    // bit_11 is 0 for this instruction
    assert_eq!(0, jsr.bit_11);
    assert_eq!(15, jsr.offset);
}
