use lc3_vm::isa::{OpCode, Register};
use lc3_vm::svm::{image_origin, Fault, StepOutcome, Svm, MR_KBDR, MR_KBSR, PC_START};

const PC: usize = 8;
const COND: usize = 9;

fn machine_with(program: &[u16]) -> Svm {
    let mut svm = Svm::new();
    for (i, w) in program.iter().enumerate() {
        svm.mem_write(PC_START as usize + i, *w);
    }
    svm
}

fn run_one(svm: &mut Svm) -> StepOutcome {
    let mut key: Option<u8> = None;
    svm.step(&mut key)
}

#[test]
fn new_machine_state() {
    let svm = Svm::new();
    assert_eq!(svm.reg.len(), 12);
    assert_eq!(svm.mem.len(), 0x10000);
    assert_eq!(svm.reg[PC], 0x3000);
    assert_eq!(svm.reg[COND], 2);
    assert!(svm.mem.iter().all(|w| *w == 0));
    assert_eq!(svm.current_instr, None);
}

#[test]
fn add_registers_sets_positive() {
    let mut svm = machine_with(&[0x1042]); // ADD R0, R1, R2
    svm.reg[1] = 3;
    svm.reg[2] = 4;
    assert!(matches!(run_one(&mut svm), StepOutcome::Executed));
    assert_eq!(svm.reg[0], 7);
    assert_eq!(svm.reg[COND], 1);
    assert_eq!(svm.reg[PC], 0x3001);
    assert_eq!(svm.current_instr, Some(0x1042));
}

#[test]
fn add_immediate_negative_and_wrapping() {
    let mut svm = machine_with(&[0x147F, 0x1461]); // ADD R2,R1,#-1 ; ADD R2,R1,#1
    assert!(matches!(run_one(&mut svm), StepOutcome::Executed));
    assert_eq!(svm.reg[2], 0xFFFF);
    assert_eq!(svm.reg[COND], 4);
    svm.reg[1] = 0xFFFF;
    assert!(matches!(run_one(&mut svm), StepOutcome::Executed));
    assert_eq!(svm.reg[2], 0);
    assert_eq!(svm.reg[COND], 2);
}

#[test]
fn add_register_mode_may_name_pc() {
    let mut svm = machine_with(&[0x1048]); // ADD R0, R1, "R8" (the PC slot)
    svm.reg[1] = 1;
    assert!(matches!(run_one(&mut svm), StepOutcome::Executed));
    assert_eq!(svm.reg[0], 0x3002);
}

#[test]
fn and_registers_and_immediates() {
    let mut svm = machine_with(&[0x5642, 0x567F, 0x5660]); // AND R3,R1,R2 ; AND R3,R1,#-1 ; AND R3,R1,#0
    svm.reg[1] = 0b1100;
    svm.reg[2] = 0b1010;
    run_one(&mut svm);
    assert_eq!(svm.reg[3], 0b1000);
    assert_eq!(svm.reg[COND], 1);
    run_one(&mut svm);
    assert_eq!(svm.reg[3], 0b1100);
    run_one(&mut svm);
    assert_eq!(svm.reg[3], 0);
    assert_eq!(svm.reg[COND], 2);
}

#[test]
fn not_twice_restores() {
    let mut svm = machine_with(&[0x9283, 0x9243]); // NOT R1,R2 ; NOT R1,R1
    svm.reg[2] = 0x00FF;
    run_one(&mut svm);
    assert_eq!(svm.reg[1], 0xFF00);
    assert_eq!(svm.reg[COND], 4);
    run_one(&mut svm);
    assert_eq!(svm.reg[1], 0x00FF);
    assert_eq!(svm.reg[COND], 1);
}

#[test]
fn branch_taken_and_not_taken() {
    let mut svm = machine_with(&[0x0402]); // BRz #2
    run_one(&mut svm);
    assert_eq!(svm.reg[PC], 0x3003);

    let mut svm = machine_with(&[0x0202]); // BRp #2, with Z set
    run_one(&mut svm);
    assert_eq!(svm.reg[PC], 0x3001);

    let mut svm = machine_with(&[0x0FFF]); // BRnzp #-1
    run_one(&mut svm);
    assert_eq!(svm.reg[PC], 0x3000);

    let mut svm = machine_with(&[0x0005]); // BR with no condition: never taken
    run_one(&mut svm);
    assert_eq!(svm.reg[PC], 0x3001);
}

#[test]
fn loads() {
    let mut svm = machine_with(&[0x2202, 0, 0, 0x8001]); // LD R1, #2
    run_one(&mut svm);
    assert_eq!(svm.reg[1], 0x8001);
    assert_eq!(svm.reg[COND], 4);

    let mut svm = machine_with(&[0xA201, 0, 0x4000]); // LDI R1, #1
    svm.mem_write(0x4000, 0x0033);
    run_one(&mut svm);
    assert_eq!(svm.reg[1], 0x0033);
    assert_eq!(svm.reg[COND], 1);

    let mut svm = machine_with(&[0x62BF]); // LDR R1, R2, #-1
    svm.reg[2] = 0x4001;
    svm.mem_write(0x4000, 42);
    run_one(&mut svm);
    assert_eq!(svm.reg[1], 42);
}

#[test]
fn stores() {
    let mut svm = machine_with(&[0x3603]); // ST R3, #3
    svm.reg[3] = 7;
    run_one(&mut svm);
    assert_eq!(svm.mem[0x3004], 7);

    let mut svm = machine_with(&[0xB601, 0, 0x5000]); // STI R3, #1
    svm.reg[3] = 9;
    run_one(&mut svm);
    assert_eq!(svm.mem[0x5000], 9);

    let mut svm = machine_with(&[0x7682]); // STR R3, R2, #2
    svm.reg[2] = 0x6000;
    svm.reg[3] = 11;
    run_one(&mut svm);
    assert_eq!(svm.mem[0x6002], 11);
    assert_eq!(svm.reg[COND], 2);
}

#[test]
fn lea_sets_address_and_flags() {
    let mut svm = machine_with(&[0xE9FD]); // LEA R4, #-3
    run_one(&mut svm);
    assert_eq!(svm.reg[4], 0x2FFE);
    assert_eq!(svm.reg[COND], 1);
}

#[test]
fn jmp_jsr_and_return() {
    let mut svm = machine_with(&[0xC080]); // JMP R2
    svm.reg[2] = 0x4000;
    run_one(&mut svm);
    assert_eq!(svm.reg[PC], 0x4000);

    let mut svm = machine_with(&[0x4805, 0, 0, 0, 0, 0, 0xC1C0]); // JSR #5 ; ... ; RET
    run_one(&mut svm);
    assert_eq!(svm.reg[7], 0x3001);
    assert_eq!(svm.reg[PC], 0x3006);
    run_one(&mut svm);
    assert_eq!(svm.reg[PC], 0x3001);

    let mut svm = machine_with(&[0x4080]); // JSRR R2
    svm.reg[2] = 0x5000;
    run_one(&mut svm);
    assert_eq!(svm.reg[7], 0x3001);
    assert_eq!(svm.reg[PC], 0x5000);

    let mut svm = machine_with(&[0x41C0]); // JSRR R7: the target is read after R7 is written
    svm.reg[7] = 0x5000;
    run_one(&mut svm);
    assert_eq!(svm.reg[PC], 0x3001);
}

#[test]
fn faults() {
    let mut svm = Svm::new();
    svm.reg[PC] = 0xFFFF;
    assert!(matches!(run_one(&mut svm), StepOutcome::Fault(Fault::PcOverflow)));
    assert_eq!(svm.reg[PC], 0xFFFF);

    let mut svm = machine_with(&[0x8000]); // RTI
    assert!(matches!(run_one(&mut svm), StepOutcome::Fault(Fault::IllegalOpcode(OpCode::OP_RTI))));
    let mut svm = machine_with(&[0xD000]); // reserved
    assert!(matches!(run_one(&mut svm), StepOutcome::Fault(Fault::IllegalOpcode(OpCode::OP_RES))));
    let mut svm = machine_with(&[0x105F]); // ADD R0, R1, "R31"
    assert!(matches!(run_one(&mut svm), StepOutcome::Fault(Fault::InvalidRegister)));
    let mut svm = machine_with(&[0x504B]); // AND R0, R1, "R11"
    assert!(matches!(run_one(&mut svm), StepOutcome::Fault(Fault::InvalidRegister)));
}

#[test]
fn keyboard_status_reads() {
    let mut svm = Svm::new();
    let mut key: Option<u8> = Some(b'a');
    assert_eq!(svm.mem_read(0x3000, &mut key), 0);
    assert_eq!(key, Some(b'a'));
    assert_eq!(svm.mem_read(MR_KBSR, &mut key), 0x8000);
    assert_eq!(svm.mem[MR_KBDR], 97);
    assert_eq!(key, None);
    assert_eq!(svm.mem_read(MR_KBSR, &mut key), 0);
}

#[test]
fn keyboard_polled_by_a_load() {
    // LDI R0, #1 ; .FILL xFE00 : reads KBSR through the pointer
    let mut svm = machine_with(&[0xA001, 0, 0xFE00]);
    let mut key: Option<u8> = Some(b'z');
    assert!(matches!(svm.step(&mut key), StepOutcome::Executed));
    assert_eq!(svm.reg[0], 0x8000);
    assert_eq!(svm.mem[MR_KBDR], b'z' as u16);
    assert_eq!(key, None);
}

#[test]
fn read_after_write() {
    let mut svm = Svm::new();
    let mut key: Option<u8> = None;
    svm.mem_write(0x4000, 9);
    assert_eq!(svm.mem_read(0x4000, &mut key), 9);
    svm.mem_write(MR_KBSR, 5);
    assert_eq!(svm.mem_read(MR_KBSR, &mut key), 0);
}

#[test]
fn load_image_places_words_from_origin() {
    let mut svm = Svm::new();
    let image: Vec<u8> = vec![0x30, 0x00, 0x12, 0x34, 0xAB, 0xCD, 0xEE];
    let origin = svm.load_image(&image);
    assert_eq!(origin, 0x3000);
    assert_eq!(svm.mem[0x3000], 0x1234);
    assert_eq!(svm.mem[0x3001], 0xABCD);
    assert_eq!(svm.mem[0x3002], 0);
    assert_eq!(svm.mem[0x2FFF], 0);
    assert_eq!(image_origin(&[0x12, 0x34]), 0x1234);
}

#[test]
fn load_image_up_to_the_last_address() {
    let mut svm = Svm::new();
    let image: Vec<u8> = vec![0xFF, 0xFF, 0x00, 0x07];
    assert_eq!(svm.load_image(&image), 0xFFFF);
    assert_eq!(svm.mem[0xFFFF], 7);
}

#[test]
fn condition_register_holds_one_flag_after_each_step() {
    let mut svm = machine_with(&[0x1042, 0x147F, 0x5660, 0xE9FD, 0x9283]);
    svm.reg[1] = 3;
    svm.reg[2] = 0x8000;
    for _ in 0..5 {
        run_one(&mut svm);
        let c = svm.reg[COND];
        assert!(c == 1 || c == 2 || c == 4);
        assert_eq!(svm.reg[10], 0);
        assert_eq!(svm.reg[11], 0);
    }
    assert_eq!(svm.reg[Register::R_PC.as_usize()], 0x3005);
}
